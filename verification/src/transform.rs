//! The transform orchestrator: one run extracts the private blocks of every
//! chapter's text, and, in remove mode only, then filters private chapters
//! out of the tree and renumbers the survivors.

use vstd::prelude::*;
use crate::config::{Config, GConfig};
use crate::extract::{
    extract_content, extract_private_blocks, has_private_block, lemma_no_block_unchanged,
};
use crate::filter::{
    all_public, chapter_is_private, filter_items_spec, filter_sub_items, item_public,
    lemma_filter_items_public,
};
use crate::number::{
    lemma_renumber_well_numbered, renumber_chapter_spec, renumber_items_spec, renumber_sub_items,
    well_numbered_items,
};
use crate::text::{denied_renderer, denied_renderer_vec};
use crate::tree::{
    Book, BookItem, Chapter, GChapter, GItem, book_view, copy_bytes, copy_bytes_opt, copy_names,
    copy_nums_opt, item_view, items_view, lemma_items_view_index, lemma_items_view_push,
    lemma_items_view_subrange,
};

verus! {

/// A chapter after block extraction: its text processed, its children
/// extracted in turn, everything else untouched.
pub open spec fn extract_chapter_spec(ch: GChapter, cfg: GConfig) -> GChapter
    decreases ch,
{
    GChapter {
        content: extract_content(ch.content, cfg),
        sub_items: extract_items_spec(ch.sub_items, cfg),
        ..ch
    }
}

/// One item after block extraction.
pub open spec fn extract_item_spec(item: GItem, cfg: GConfig) -> GItem
    decreases item,
{
    match item {
        GItem::Chapter(ch) => GItem::Chapter(extract_chapter_spec(ch, cfg)),
        _ => item,
    }
}

/// A list of items after block extraction, order kept.
pub open spec fn extract_items_spec(items: Seq<GItem>, cfg: GConfig) -> Seq<GItem>
    decreases items,
{
    if items.len() == 0 {
        Seq::empty()
    } else {
        seq![extract_item_spec(items[0], cfg)] + extract_items_spec(
            items.subrange(1, items.len() as int),
            cfg,
        )
    }
}

/// The whole run: block extraction everywhere; then, in remove mode only,
/// chapter filtering followed by renumbering from an empty path.
pub open spec fn transform_spec(items: Seq<GItem>, cfg: GConfig) -> Seq<GItem> {
    let extracted = extract_items_spec(items, cfg);
    if cfg.remove {
        renumber_items_spec(filter_items_spec(extracted, cfg.prefix), Seq::empty(), 0)
    } else {
        extracted
    }
}

/// Extracts the blocks of one item's text and of its whole subtree.
fn extract_item(item: &BookItem, cfg: &Config) -> (r: BookItem)
    ensures
        item_view(r) == extract_item_spec(item_view(*item), cfg@),
    decreases *item,
{
    match item {
        BookItem::Chapter(ch) => {
            let subs = extract_sub_items(&ch.sub_items, cfg);
            BookItem::Chapter(Chapter {
                name: copy_bytes(&ch.name),
                content: extract_private_blocks(&ch.content, cfg),
                number: copy_nums_opt(&ch.number),
                sub_items: subs,
                path: copy_bytes_opt(&ch.path),
                source_path: copy_bytes_opt(&ch.source_path),
                parent_names: copy_names(&ch.parent_names),
            })
        }
        BookItem::Separator => BookItem::Separator,
        BookItem::PartTitle(t) => BookItem::PartTitle(copy_bytes(t)),
    }
}

/// Extracts the blocks of every chapter of a list of items.
fn extract_sub_items(items: &Vec<BookItem>, cfg: &Config) -> (r: Vec<BookItem>)
    ensures
        items_view(r@) == extract_items_spec(items_view(items@), cfg@),
    decreases items@,
{
    let mut out: Vec<BookItem> = Vec::new();
    let mut i: usize = 0;
    proof {
        assert(items@.subrange(0, items@.len() as int) =~= items@);
        assert(items_view(out@) + extract_items_spec(items_view(items@), cfg@)
            =~= extract_items_spec(items_view(items@), cfg@));
    }
    #[verifier::loop_isolation(false)]
    while i < items.len()
        invariant
            i <= items.len(),
            extract_items_spec(items_view(items@), cfg@) == items_view(out@)
                + extract_items_spec(
                items_view(items@.subrange(i as int, items@.len() as int)),
                cfg@,
            ),
        decreases items.len() - i,
    {
        let ghost n = items@.len() as int;
        proof {
            lemma_items_view_subrange(items@, i as int, n);
            lemma_items_view_subrange(items@, i as int + 1, n);
            lemma_items_view_index(items@);
            assert(items_view(items@).subrange(i as int, n).subrange(
                1,
                items_view(items@).subrange(i as int, n).len() as int,
            ) =~= items_view(items@).subrange(i as int + 1, n));
            assert(items_view(items@.subrange(i as int, n))[0] == item_view(items@[i as int]));
        }
        let ghost out_before = out@;
        let x = extract_item(&items[i], cfg);
        out.push(x);
        proof {
            lemma_items_view_push(out_before, x);
            assert(items_view(out@) + extract_items_spec(
                items_view(items@.subrange(i as int + 1, n)),
                cfg@,
            ) =~= items_view(out_before) + (seq![item_view(x)] + extract_items_spec(
                items_view(items@.subrange(i as int + 1, n)),
                cfg@,
            )));
        }
        i += 1;
    }
    proof {
        assert(items_view(items@.subrange(items@.len() as int, items@.len() as int))
            =~= Seq::<GItem>::empty());
        assert(items_view(out@) =~= items_view(out@) + Seq::<GItem>::empty());
    }
    out
}

/// Whether two byte vectors hold the same bytes.
fn bytes_eq(a: &Vec<u8>, b: &Vec<u8>) -> (r: bool)
    ensures
        r == (a@ == b@),
{
    if a.len() != b.len() {
        return false;
    }
    let mut i: usize = 0;
    #[verifier::loop_isolation(false)]
    while i < a.len()
        invariant
            i <= a.len(),
            a.len() == b.len(),
            forall|j: int| 0 <= j < i ==> a@[j] == b@[j],
        decreases a.len() - i,
    {
        if a[i] != b[i] {
            return false;
        }
        i += 1;
    }
    proof {
        assert(a@ =~= b@);
    }
    true
}

/// The transform, as the host invokes it.
pub struct Private;

impl Private {
    /// Makes the transform.
    pub fn new() -> Private {
        Private
    }

    /// The name under which the host's configuration addresses the
    /// transform.
    pub fn name(&self) -> (r: &'static str)
        ensures
            r@ == "private"@,
    {
        "private"
    }

    /// The transform applies to every output target but the one reserved
    /// name.
    pub fn supports_renderer(&self, renderer: &Vec<u8>) -> (r: bool)
        ensures
            r == (renderer@ != denied_renderer()),
    {
        let denied = denied_renderer_vec();
        !bytes_eq(renderer, &denied)
    }

    /// One run: every chapter's text has its private blocks processed under
    /// the configuration; with removal off that tree is the result, and with
    /// removal on the private chapters are dropped and the survivors
    /// renumbered.
    pub fn run(&self, cfg: &Config, book: Book) -> (r: Book)
        ensures
            book_view(r) == transform_spec(book_view(book), cfg@),
    {
        let extracted = extract_sub_items(&book.sections, cfg);
        if cfg.remove {
            let filtered = filter_sub_items(&extracted, &cfg.prefix);
            let path: Vec<u64> = Vec::new();
            let renumbered = renumber_sub_items(&filtered, &path);
            proof {
                assert(path@ =~= Seq::<u64>::empty());
            }
            Book { sections: renumbered }
        } else {
            Book { sections: extracted }
        }
    }
}

impl Default for Private {
    fn default() -> (r: Self)
        ensures
            r == (Private {  }),
    {
        Private::new()
    }
}

/// Renumbering never resurrects a private chapter: a forest with no private
/// chapter anywhere stays that way under renumbering.
proof fn lemma_renumber_keeps_public(items: Seq<GItem>, path: Seq<u64>, count: int, prefix: Seq<u8>)
    requires
        all_public(items, prefix),
    ensures
        all_public(renumber_items_spec(items, path, count), prefix),
    decreases items,
{
    if items.len() > 0 {
        let rest = items.subrange(1, items.len() as int);
        assert(item_public(items[0], prefix) && all_public(rest, prefix));
        match items[0] {
            GItem::Chapter(ch) => {
                if ch.number is Some {
                    let num = path.push(((count + 1) as u64));
                    assert(!chapter_is_private(ch, prefix) && all_public(ch.sub_items, prefix));
                    lemma_renumber_keeps_public(ch.sub_items, num, 0, prefix);
                    lemma_renumber_keeps_public(rest, path, count + 1, prefix);
                    let x = GItem::Chapter(renumber_chapter_spec(ch, num));
                    let whole = seq![x] + renumber_items_spec(rest, path, count + 1);
                    assert(whole.subrange(1, whole.len() as int) =~= renumber_items_spec(
                        rest,
                        path,
                        count + 1,
                    ));
                    assert(item_public(x, prefix));
                } else {
                    lemma_renumber_keeps_public(rest, path, count, prefix);
                    let whole = seq![items[0]] + renumber_items_spec(rest, path, count);
                    assert(whole.subrange(1, whole.len() as int) =~= renumber_items_spec(
                        rest,
                        path,
                        count,
                    ));
                }
            }
            _ => {
                lemma_renumber_keeps_public(rest, path, count, prefix);
                let whole = seq![items[0]] + renumber_items_spec(rest, path, count);
                assert(whole.subrange(1, whole.len() as int) =~= renumber_items_spec(
                    rest,
                    path,
                    count,
                ));
            }
        }
    }
}

/// In remove mode the run's output holds no private chapter at any depth:
/// every chapter whose source file name starts with the prefix is gone,
/// descendants and all, whatever those descendants were named.
pub proof fn lemma_run_drops_private(items: Seq<GItem>, cfg: GConfig)
    requires
        cfg.remove,
    ensures
        all_public(transform_spec(items, cfg), cfg.prefix),
{
    let extracted = extract_items_spec(items, cfg);
    lemma_filter_items_public(extracted, cfg.prefix);
    lemma_renumber_keeps_public(
        filter_items_spec(extracted, cfg.prefix),
        Seq::empty(),
        0,
        cfg.prefix,
    );
}

/// In remove mode the run's output is well numbered from the empty path:
/// within every sibling group the surviving numbered chapters carry the
/// dense run one, two, three and so on, each number one entry longer than
/// its parent's, and unnumbered chapters neither get a number nor advance
/// the count.
pub proof fn lemma_run_well_numbered(items: Seq<GItem>, cfg: GConfig)
    requires
        cfg.remove,
    ensures
        well_numbered_items(transform_spec(items, cfg), Seq::empty(), 0),
{
    lemma_renumber_well_numbered(
        filter_items_spec(extract_items_spec(items, cfg), cfg.prefix),
        Seq::empty(),
        0,
    );
}

/// No text of the item's subtree holds a private block.
pub open spec fn item_unmarked(item: GItem) -> bool
    decreases item,
{
    match item {
        GItem::Chapter(ch) => !has_private_block(ch.content) && items_unmarked(ch.sub_items),
        _ => true,
    }
}

/// No text anywhere in the forest holds a private block.
pub open spec fn items_unmarked(items: Seq<GItem>) -> bool
    decreases items,
{
    if items.len() == 0 {
        true
    } else {
        item_unmarked(items[0]) && items_unmarked(items.subrange(1, items.len() as int))
    }
}

proof fn lemma_unmarked_item_unchanged(item: GItem, cfg: GConfig)
    requires
        item_unmarked(item),
    ensures
        extract_item_spec(item, cfg) == item,
    decreases item,
{
    match item {
        GItem::Chapter(ch) => {
            lemma_no_block_unchanged(ch.content, cfg);
            lemma_unmarked_items_unchanged(ch.sub_items, cfg);
        }
        _ => {}
    }
}

proof fn lemma_unmarked_items_unchanged(items: Seq<GItem>, cfg: GConfig)
    requires
        items_unmarked(items),
    ensures
        extract_items_spec(items, cfg) == items,
    decreases items,
{
    if items.len() > 0 {
        lemma_unmarked_item_unchanged(items[0], cfg);
        lemma_unmarked_items_unchanged(items.subrange(1, items.len() as int), cfg);
        assert(extract_items_spec(items, cfg) =~= items);
    }
}

/// With removal off and no private block in any chapter's text, the run
/// returns the tree exactly as it came.
pub proof fn lemma_keep_mode_identity(items: Seq<GItem>, cfg: GConfig)
    requires
        !cfg.remove,
        items_unmarked(items),
    ensures
        transform_spec(items, cfg) == items,
{
    lemma_unmarked_items_unchanged(items, cfg);
}

} // verus!

