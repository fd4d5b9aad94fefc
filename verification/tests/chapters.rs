use mdbook_private::config::Config;
use mdbook_private::tree::{Book, BookItem, Chapter};
use mdbook_private::Private;

fn mk_ch(
    name: &str,
    number: Option<Vec<u64>>,
    sub_items: Vec<BookItem>,
    source_path: Option<&str>,
) -> BookItem {
    BookItem::Chapter(Chapter {
        name: name.as_bytes().to_vec(),
        content: format!("# {}\n", name).as_bytes().to_vec(),
        number,
        sub_items,
        path: source_path.map(|p| p.as_bytes().to_vec()),
        source_path: source_path.map(|p| p.as_bytes().to_vec()),
        parent_names: vec![],
    })
}

fn remove_cfg() -> Config {
    Config::new(Some(true), None, None, None)
}

fn run(book: Book, cfg: &Config) -> Book {
    Private::new().run(cfg, book)
}

#[test]
fn middle_private_chapter_renumbers_the_rest() {
    let book = Book {
        sections: vec![
            mk_ch("One", Some(vec![1]), vec![], Some("one.md")),
            mk_ch("Two", Some(vec![2]), vec![], Some("_two.md")),
            mk_ch("Three", Some(vec![3]), vec![], Some("three.md")),
        ],
    };
    let out = run(book, &remove_cfg());
    let expected = Book {
        sections: vec![
            mk_ch("One", Some(vec![1]), vec![], Some("one.md")),
            mk_ch("Three", Some(vec![2]), vec![], Some("three.md")),
        ],
    };
    assert_eq!(out, expected);
}

#[test]
fn unnumbered_chapter_keeps_no_number_and_no_slot() {
    let book = Book {
        sections: vec![
            mk_ch("Draft", None, vec![], Some("draft.md")),
            mk_ch("One", Some(vec![1]), vec![], Some("one.md")),
            mk_ch("Gone", Some(vec![2]), vec![], Some("_gone.md")),
            mk_ch("Two", Some(vec![3]), vec![], Some("two.md")),
        ],
    };
    let out = run(book, &remove_cfg());
    let expected = Book {
        sections: vec![
            mk_ch("Draft", None, vec![], Some("draft.md")),
            mk_ch("One", Some(vec![1]), vec![], Some("one.md")),
            mk_ch("Two", Some(vec![2]), vec![], Some("two.md")),
        ],
    };
    assert_eq!(out, expected);
}

#[test]
fn private_parent_takes_public_descendants_with_it() {
    let book = Book {
        sections: vec![mk_ch(
            "Hidden",
            Some(vec![1]),
            vec![mk_ch("Visible child", Some(vec![1, 1]), vec![], Some("child.md"))],
            Some("_hidden.md"),
        )],
    };
    let out = run(book, &remove_cfg());
    assert_eq!(out, Book { sections: vec![] });
}

#[test]
fn chapter_without_source_is_never_pruned() {
    let book = Book {
        sections: vec![mk_ch("Draft", Some(vec![1]), vec![], None)],
    };
    let expected = Book {
        sections: vec![mk_ch("Draft", Some(vec![1]), vec![], None)],
    };
    let out = run(book, &remove_cfg());
    assert_eq!(out, expected);
}

#[test]
fn prefix_applies_to_file_name_not_directory() {
    let book = Book {
        sections: vec![
            mk_ch("Kept", Some(vec![1]), vec![], Some("_dir/kept.md")),
            mk_ch("Dropped", Some(vec![2]), vec![], Some("dir/_dropped.md")),
        ],
    };
    let out = run(book, &remove_cfg());
    let expected = Book {
        sections: vec![mk_ch("Kept", Some(vec![1]), vec![], Some("_dir/kept.md"))],
    };
    assert_eq!(out, expected);
}

#[test]
fn custom_prefix_selects_the_chapters() {
    let cfg = Config::new(Some(true), None, None, Some(b"hide-".to_vec()));
    let book = Book {
        sections: vec![
            mk_ch("A", Some(vec![1]), vec![], Some("_a.md")),
            mk_ch("B", Some(vec![2]), vec![], Some("hide-b.md")),
        ],
    };
    let out = run(book, &cfg);
    let expected = Book {
        sections: vec![mk_ch("A", Some(vec![1]), vec![], Some("_a.md"))],
    };
    assert_eq!(out, expected);
}

#[test]
fn non_chapter_items_pass_through() {
    let book = Book {
        sections: vec![
            BookItem::PartTitle(b"Part I".to_vec()),
            mk_ch("One", Some(vec![1]), vec![], Some("one.md")),
            BookItem::Separator,
            mk_ch("Two", Some(vec![2]), vec![], Some("_two.md")),
        ],
    };
    let out = run(book, &remove_cfg());
    let expected = Book {
        sections: vec![
            BookItem::PartTitle(b"Part I".to_vec()),
            mk_ch("One", Some(vec![1]), vec![], Some("one.md")),
            BookItem::Separator,
        ],
    };
    assert_eq!(out, expected);
}

#[test]
fn keep_mode_leaves_the_tree_alone() {
    let book = Book {
        sections: vec![
            mk_ch("One", Some(vec![1]), vec![], Some("_one.md")),
            mk_ch("Two", Some(vec![2]), vec![], Some("two.md")),
        ],
    };
    let expected = Book {
        sections: vec![
            mk_ch("One", Some(vec![1]), vec![], Some("_one.md")),
            mk_ch("Two", Some(vec![2]), vec![], Some("two.md")),
        ],
    };
    let out = run(book, &Config::new(None, None, None, None));
    assert_eq!(out, expected);
}

#[test]
fn nested_numbers_follow_the_parent() {
    let book = Book {
        sections: vec![
            mk_ch("Gone", Some(vec![1]), vec![], Some("_gone.md")),
            mk_ch(
                "Kept",
                Some(vec![2]),
                vec![
                    mk_ch("Child A", Some(vec![2, 1]), vec![], Some("_a.md")),
                    mk_ch("Child B", Some(vec![2, 2]), vec![], Some("b.md")),
                ],
                Some("kept.md"),
            ),
        ],
    };
    let out = run(book, &remove_cfg());
    let expected = Book {
        sections: vec![mk_ch(
            "Kept",
            Some(vec![1]),
            vec![mk_ch("Child B", Some(vec![1, 1]), vec![], Some("b.md"))],
            Some("kept.md"),
        )],
    };
    assert_eq!(out, expected);
}

#[test]
fn renderer_support_denies_one_name() {
    let p = Private::new();
    assert!(p.supports_renderer(&b"html".to_vec()));
    assert!(p.supports_renderer(&b"markdown".to_vec()));
    assert!(!p.supports_renderer(&b"not-supported".to_vec()));
}

#[test]
fn name_is_private() {
    assert_eq!(Private::new().name(), "private");
}
