use mdbook_private::config::Config;
use mdbook_private::tree::{Book, BookItem, Chapter};
use mdbook_private::Private;

const STYLE_OPEN: &str = "<blockquote style='position: relative; padding: 20px 20px;'>\
<span style='position: absolute; top: 0; right: 5px; font-size: 80%; opacity: 0.4;'>";

fn mk_chapter(
    name: &str,
    content: &str,
    number: Option<Vec<u64>>,
    sub_items: Vec<BookItem>,
    path: &str,
    source_path: &str,
    parent_names: Vec<&str>,
) -> BookItem {
    BookItem::Chapter(Chapter {
        name: name.as_bytes().to_vec(),
        content: content.as_bytes().to_vec(),
        number,
        sub_items,
        path: Some(path.as_bytes().to_vec()),
        source_path: Some(source_path.as_bytes().to_vec()),
        parent_names: parent_names.iter().map(|n| n.as_bytes().to_vec()).collect(),
    })
}

#[test]
fn private_remove_preprocessor_run() {
    let book = Book {
        sections: vec![mk_chapter(
            "Chapter 1",
            "# Chapter 1\n<!--private\nHello world!\n\nSome more text\n123!@#\n-->\nThe End",
            Some(vec![1]),
            vec![],
            "chapter_1.md",
            "chapter_1.md",
            vec![],
        )],
    };
    let expected = Book {
        sections: vec![mk_chapter(
            "Chapter 1",
            "# Chapter 1\nThe End",
            Some(vec![1]),
            vec![],
            "chapter_1.md",
            "chapter_1.md",
            vec![],
        )],
    };
    let cfg = Config::new(Some(true), None, None, None);
    let actual = Private::new().run(&cfg, book);
    assert_eq!(actual, expected);
}

#[test]
fn private_keep_preprocessor_run() {
    let book = Book {
        sections: vec![mk_chapter(
            "Chapter 1",
            "# Chapter 1\n<!--private\nHello world!\n\nSome more text\n123!@#\n-->\nThe End",
            Some(vec![1]),
            vec![],
            "chapter_1.md",
            "chapter_1.md",
            vec![],
        )],
    };
    let expected_content = format!(
        "# Chapter 1\n{}CONFIDENTIAL</span>Hello world!\n\nSome more text\n123!@#</blockquote>\nThe End",
        STYLE_OPEN
    );
    let expected = Book {
        sections: vec![mk_chapter(
            "Chapter 1",
            &expected_content,
            Some(vec![1]),
            vec![],
            "chapter_1.md",
            "chapter_1.md",
            vec![],
        )],
    };
    let cfg = Config::new(None, None, None, None);
    let actual = Private::new().run(&cfg, book);
    assert_eq!(actual, expected);
}

#[test]
fn private_remove_robustly_run() {
    let book = Book {
        sections: vec![mk_chapter(
            "Chapter 1",
            "# Chapter 1\n<!--private Hello world! -->\nThe End",
            Some(vec![1]),
            vec![],
            "chapter_1.md",
            "chapter_1.md",
            vec![],
        )],
    };
    let expected = Book {
        sections: vec![mk_chapter(
            "Chapter 1",
            "# Chapter 1\nThe End",
            Some(vec![1]),
            vec![],
            "chapter_1.md",
            "chapter_1.md",
            vec![],
        )],
    };
    let cfg = Config::new(Some(true), None, None, None);
    let actual = Private::new().run(&cfg, book);
    assert_eq!(actual, expected);
}

#[test]
fn private_keep_robustly_run() {
    let book = Book {
        sections: vec![mk_chapter(
            "Chapter 1",
            "# Chapter 1\n<!--private Hello world! -->\nThe End",
            Some(vec![1]),
            vec![],
            "chapter_1.md",
            "chapter_1.md",
            vec![],
        )],
    };
    let expected_content = format!(
        "# Chapter 1\n{}CONFIDENTIAL</span>Hello world!</blockquote>\nThe End",
        STYLE_OPEN
    );
    let expected = Book {
        sections: vec![mk_chapter(
            "Chapter 1",
            &expected_content,
            Some(vec![1]),
            vec![],
            "chapter_1.md",
            "chapter_1.md",
            vec![],
        )],
    };
    let cfg = Config::new(None, None, None, None);
    let actual = Private::new().run(&cfg, book);
    assert_eq!(actual, expected);
}

const CH1_CONTENT: &str = "# Chapter 1\n\nThis chapter will always be present\n\n<!--private\n\
This is some highly confidential material which we want to remove when sharing with external \
parties.\n\nAnother *line*.\n\n# A title that should remain a title  \nYet another **line**.\n-->\n";

const CH2_CONTENT: &str =
    "# Chapter 2\n\nThis chapter and it's subchapters will be removed if private is enabled\n";

const SUB1_CONTENT: &str = "# Subchapter\n\nThis chapter will be removed if private is enabled\n";

const SUB2_CONTENT: &str = "# Subchapter\n\nThis will be removed if private is enabled because \
it's parent chapter is set to be removed.\n";

#[test]
fn private_keep_chapters_run() {
    let book = Book {
        sections: vec![
            mk_chapter(
                "Chapter 1",
                CH1_CONTENT,
                Some(vec![1]),
                vec![mk_chapter(
                    "Sub chapter",
                    SUB1_CONTENT,
                    Some(vec![1, 1]),
                    vec![],
                    "_chapter_1_sub.md",
                    "_chapter_1_sub.md",
                    vec!["Chapter 1"],
                )],
                "chapter_1.md",
                "chapter_1.md",
                vec![],
            ),
            mk_chapter(
                "Chapter 2",
                CH2_CONTENT,
                Some(vec![2]),
                vec![mk_chapter(
                    "Sub chapter",
                    SUB2_CONTENT,
                    Some(vec![2, 1]),
                    vec![],
                    "chapter_2_sub.md",
                    "chapter_2_sub.md",
                    vec!["Chapter 2"],
                )],
                "_chapter_2.md",
                "_chapter_2.md",
                vec![],
            ),
        ],
    };
    let expected_ch1 = format!(
        "# Chapter 1\n\nThis chapter will always be present\n\n{}CONFIDENTIAL</span>This is some \
highly confidential material which we want to remove when sharing with external parties.\n\n\
Another *line*.\n\n# A title that should remain a title  \nYet another **line**.</blockquote>\n",
        STYLE_OPEN
    );
    let expected = Book {
        sections: vec![
            mk_chapter(
                "Chapter 1",
                &expected_ch1,
                Some(vec![1]),
                vec![mk_chapter(
                    "Sub chapter",
                    SUB1_CONTENT,
                    Some(vec![1, 1]),
                    vec![],
                    "_chapter_1_sub.md",
                    "_chapter_1_sub.md",
                    vec!["Chapter 1"],
                )],
                "chapter_1.md",
                "chapter_1.md",
                vec![],
            ),
            mk_chapter(
                "Chapter 2",
                CH2_CONTENT,
                Some(vec![2]),
                vec![mk_chapter(
                    "Sub chapter",
                    SUB2_CONTENT,
                    Some(vec![2, 1]),
                    vec![],
                    "chapter_2_sub.md",
                    "chapter_2_sub.md",
                    vec!["Chapter 2"],
                )],
                "_chapter_2.md",
                "_chapter_2.md",
                vec![],
            ),
        ],
    };
    let cfg = Config::new(None, None, None, None);
    let actual = Private::new().run(&cfg, book);
    assert_eq!(actual, expected);
}

#[test]
fn private_remove_chapters_run() {
    let book = Book {
        sections: vec![
            mk_chapter(
                "Chapter 1",
                CH1_CONTENT,
                Some(vec![1]),
                vec![mk_chapter(
                    "Sub chapter",
                    SUB1_CONTENT,
                    Some(vec![1, 1]),
                    vec![],
                    "_chapter_1_sub.md",
                    "_chapter_1_sub.md",
                    vec!["Chapter 1"],
                )],
                "chapter_1.md",
                "chapter_1.md",
                vec![],
            ),
            mk_chapter(
                "Chapter 2",
                CH2_CONTENT,
                Some(vec![2]),
                vec![mk_chapter(
                    "Sub chapter",
                    SUB2_CONTENT,
                    Some(vec![2, 1]),
                    vec![],
                    "chapter_2_sub.md",
                    "chapter_2_sub.md",
                    vec!["Chapter 2"],
                )],
                "_chapter_2.md",
                "_chapter_2.md",
                vec![],
            ),
        ],
    };
    let expected = Book {
        sections: vec![mk_chapter(
            "Chapter 1",
            "# Chapter 1\n\nThis chapter will always be present\n\n",
            Some(vec![1]),
            vec![],
            "chapter_1.md",
            "chapter_1.md",
            vec![],
        )],
    };
    let cfg = Config::new(Some(true), None, None, None);
    let actual = Private::new().run(&cfg, book);
    assert_eq!(actual, expected);
}

#[test]
fn private_remove_chapters_section_numbers_run() {
    let book = Book {
        sections: vec![
            mk_chapter(
                "Intro",
                "# Intro\n\nIntroduction prefix chapter\n\n<!--private\nSecret stuff\n-->\n",
                None,
                vec![],
                "intro.md",
                "intro.md",
                vec![],
            ),
            mk_chapter(
                "Chapter 1",
                CH1_CONTENT,
                Some(vec![1]),
                vec![
                    mk_chapter(
                        "Sub chapter",
                        SUB1_CONTENT,
                        Some(vec![1, 1]),
                        vec![],
                        "_chapter_1_sub_1.md",
                        "_chapter_1_sub.md",
                        vec!["Chapter 1"],
                    ),
                    mk_chapter(
                        "Sub chapter",
                        "",
                        Some(vec![1, 2]),
                        vec![],
                        "chapter_1_sub_2.md",
                        "chapter_1_sub_2.md",
                        vec!["Chapter 1"],
                    ),
                ],
                "chapter_1.md",
                "chapter_1.md",
                vec![],
            ),
            mk_chapter(
                "Chapter 2",
                CH2_CONTENT,
                Some(vec![2]),
                vec![mk_chapter(
                    "Sub chapter",
                    SUB2_CONTENT,
                    Some(vec![2, 1]),
                    vec![],
                    "chapter_2_sub.md",
                    "chapter_2_sub.md",
                    vec!["Chapter 2"],
                )],
                "_chapter_2.md",
                "_chapter_2.md",
                vec![],
            ),
            mk_chapter(
                "Chapter 3",
                "# Chapter 1\n\nThis chapter will always be present\n\n\n",
                Some(vec![3]),
                vec![],
                "chapter_3.md",
                "chapter_3.md",
                vec![],
            ),
        ],
    };
    let expected = Book {
        sections: vec![
            mk_chapter(
                "Intro",
                "# Intro\n\nIntroduction prefix chapter\n\n",
                None,
                vec![],
                "intro.md",
                "intro.md",
                vec![],
            ),
            mk_chapter(
                "Chapter 1",
                "# Chapter 1\n\nThis chapter will always be present\n\n",
                Some(vec![1]),
                vec![mk_chapter(
                    "Sub chapter",
                    "",
                    Some(vec![1, 1]),
                    vec![],
                    "chapter_1_sub_2.md",
                    "chapter_1_sub_2.md",
                    vec!["Chapter 1"],
                )],
                "chapter_1.md",
                "chapter_1.md",
                vec![],
            ),
            mk_chapter(
                "Chapter 3",
                "# Chapter 1\n\nThis chapter will always be present\n\n\n",
                Some(vec![2]),
                vec![],
                "chapter_3.md",
                "chapter_3.md",
                vec![],
            ),
        ],
    };
    let cfg = Config::new(Some(true), None, None, None);
    let actual = Private::new().run(&cfg, book);
    assert_eq!(actual, expected);
}
