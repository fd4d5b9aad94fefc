//! The tree filter: in remove mode, every chapter whose source file name
//! starts with the configured prefix is dropped with its whole subtree; a
//! kept chapter has its children filtered in turn, in their original order.
//! Non-chapter items pass through unchanged.

use vstd::prelude::*;
use crate::tree::{
    BookItem, Chapter, GChapter, GItem, chapter_view, copy_bytes, copy_bytes_opt, copy_names,
    copy_nums_opt, item_view, items_view, lemma_items_view_index, lemma_items_view_push,
    lemma_items_view_subrange,
};

verus! {

/// The final path segment of a source identifier: everything after the last
/// separator byte.
pub open spec fn file_name_of(p: Seq<u8>) -> Seq<u8>
    decreases p.len(),
{
    if p.len() == 0 {
        Seq::empty()
    } else if p[p.len() - 1] == 47 {
        Seq::empty()
    } else {
        file_name_of(p.subrange(0, p.len() - 1)).push(p[p.len() - 1])
    }
}

pub open spec fn starts_with(s: Seq<u8>, pre: Seq<u8>) -> bool {
    pre.len() <= s.len() && s.subrange(0, pre.len() as int) == pre
}

/// A chapter is private when it has a source identifier whose file name
/// starts with the prefix; a chapter without one never is.
pub open spec fn chapter_is_private(ch: GChapter, prefix: Seq<u8>) -> bool {
    match ch.source_path {
        Option::Some(p) => starts_with(file_name_of(p), prefix),
        Option::None => false,
    }
}

/// What the filter makes of one item: a private chapter is dropped whole,
/// its descendants never visited; a public chapter is kept with its children
/// filtered; any other item is kept as it is.
pub open spec fn filter_item_spec(item: GItem, prefix: Seq<u8>) -> Option<GItem>
    decreases item,
{
    match item {
        GItem::Chapter(ch) => {
            if chapter_is_private(ch, prefix) {
                Option::None
            } else {
                Option::Some(GItem::Chapter(filter_chapter_spec(ch, prefix)))
            }
        }
        _ => Option::Some(item),
    }
}

/// A kept chapter, its children filtered.
pub open spec fn filter_chapter_spec(ch: GChapter, prefix: Seq<u8>) -> GChapter
    decreases ch,
{
    GChapter { sub_items: filter_items_spec(ch.sub_items, prefix), ..ch }
}

/// The survivors of a list of items, in their original relative order.
pub open spec fn filter_items_spec(items: Seq<GItem>, prefix: Seq<u8>) -> Seq<GItem>
    decreases items,
{
    if items.len() == 0 {
        Seq::empty()
    } else {
        let rest = filter_items_spec(items.subrange(1, items.len() as int), prefix);
        match filter_item_spec(items[0], prefix) {
            Option::Some(it) => seq![it] + rest,
            Option::None => rest,
        }
    }
}

pub proof fn lemma_file_name_suffix(p: Seq<u8>, i: int)
    requires
        0 <= i <= p.len(),
        forall|j: int| i <= j < p.len() ==> p[j] != 47,
        i > 0 ==> p[i - 1] == 47,
    ensures
        file_name_of(p) == p.subrange(i, p.len() as int),
    decreases p.len(),
{
    if p.len() == 0 {
        assert(file_name_of(p) =~= p.subrange(i, p.len() as int));
    } else if p[p.len() - 1] == 47 {
        assert(i == p.len());
        assert(file_name_of(p) =~= p.subrange(i, p.len() as int));
    } else {
        lemma_file_name_suffix(p.subrange(0, p.len() - 1), i);
        assert(file_name_of(p) =~= p.subrange(i, p.len() as int));
    }
}

fn exec_file_name_start(p: &Vec<u8>) -> (r: usize)
    ensures
        r <= p.len(),
        file_name_of(p@) == p@.subrange(r as int, p@.len() as int),
{
    let mut i = p.len();
    while i > 0 && p[i - 1] != 47
        invariant
            0 <= i <= p.len(),
            forall|j: int| i <= j < p.len() ==> p@[j] != 47,
        decreases i,
    {
        i -= 1;
    }
    proof {
        lemma_file_name_suffix(p@, i as int);
    }
    i
}

fn exec_starts_with_from(s: &Vec<u8>, from: usize, pre: &Vec<u8>) -> (r: bool)
    requires
        from <= s.len(),
    ensures
        r == starts_with(s@.subrange(from as int, s@.len() as int), pre@),
{
    let ghost suffix = s@.subrange(from as int, s@.len() as int);
    if s.len() - from < pre.len() {
        return false;
    }
    let mut t: usize = 0;
    #[verifier::loop_isolation(false)]
    while t < pre.len()
        invariant
            0 <= t <= pre.len(),
            pre.len() <= s.len() - from,
            from <= s.len(),
            forall|u: int| 0 <= u < t ==> s@[from + u] == pre@[u],
        decreases pre.len() - t,
    {
        if s[from + t] != pre[t] {
            proof {
                assert(suffix[t as int] == s@[from + t as int]);
                if starts_with(suffix, pre@) {
                    assert(suffix.subrange(0, pre@.len() as int)[t as int] == pre@[t as int]);
                }
            }
            return false;
        }
        t += 1;
    }
    proof {
        assert(suffix.subrange(0, pre@.len() as int) =~= pre@);
    }
    true
}

/// Decides whether one chapter is private under the given prefix.
pub fn chapter_private(ch: &Chapter, prefix: &Vec<u8>) -> (r: bool)
    ensures
        r == chapter_is_private(chapter_view(*ch), prefix@),
{
    match &ch.source_path {
        Option::None => false,
        Option::Some(p) => {
            let fstart = exec_file_name_start(p);
            exec_starts_with_from(p, fstart, prefix)
        }
    }
}

/// Filters one item: a private chapter goes, anything else stays, a kept
/// chapter with its children filtered in turn.
pub fn filter_item(item: &BookItem, prefix: &Vec<u8>) -> (r: Option<BookItem>)
    ensures
        match r {
            Option::Some(x) => filter_item_spec(item_view(*item), prefix@) == Option::Some(
                item_view(x),
            ),
            Option::None => filter_item_spec(item_view(*item), prefix@) is None,
        },
    decreases *item,
{
    match item {
        BookItem::Chapter(ch) => {
            if chapter_private(ch, prefix) {
                Option::None
            } else {
                let subs = filter_sub_items(&ch.sub_items, prefix);
                Option::Some(BookItem::Chapter(Chapter {
                    name: copy_bytes(&ch.name),
                    content: copy_bytes(&ch.content),
                    number: copy_nums_opt(&ch.number),
                    sub_items: subs,
                    path: copy_bytes_opt(&ch.path),
                    source_path: copy_bytes_opt(&ch.source_path),
                    parent_names: copy_names(&ch.parent_names),
                }))
            }
        }
        BookItem::Separator => Option::Some(BookItem::Separator),
        BookItem::PartTitle(t) => Option::Some(BookItem::PartTitle(copy_bytes(t))),
    }
}

/// Filters a list of items, keeping the survivors in order.
pub fn filter_sub_items(items: &Vec<BookItem>, prefix: &Vec<u8>) -> (r: Vec<BookItem>)
    ensures
        items_view(r@) == filter_items_spec(items_view(items@), prefix@),
    decreases items@,
{
    let mut out: Vec<BookItem> = Vec::new();
    let mut i: usize = 0;
    proof {
        assert(items@.subrange(0, items@.len() as int) =~= items@);
        assert(items_view(out@) + filter_items_spec(items_view(items@), prefix@)
            =~= filter_items_spec(items_view(items@), prefix@));
    }
    #[verifier::loop_isolation(false)]
    while i < items.len()
        invariant
            i <= items.len(),
            filter_items_spec(items_view(items@), prefix@) == items_view(out@)
                + filter_items_spec(
                items_view(items@.subrange(i as int, items@.len() as int)),
                prefix@,
            ),
        decreases items.len() - i,
    {
        let ghost n = items@.len() as int;
        proof {
            lemma_items_view_subrange(items@, i as int, n);
            lemma_items_view_subrange(items@, i as int + 1, n);
            lemma_items_view_index(items@);
            assert(items_view(items@).subrange(i as int, n).subrange(
                1,
                items_view(items@).subrange(i as int, n).len() as int,
            ) =~= items_view(items@).subrange(i as int + 1, n));
            assert(items_view(items@.subrange(i as int, n))[0] == item_view(
                items@[i as int],
            ));
        }
        let ghost out_before = out@;
        match filter_item(&items[i], prefix) {
            Option::Some(x) => {
                out.push(x);
                proof {
                    lemma_items_view_push(out_before, x);
                    assert(items_view(out@) + filter_items_spec(
                        items_view(items@.subrange(i as int + 1, n)),
                        prefix@,
                    ) =~= items_view(out_before) + (seq![item_view(x)] + filter_items_spec(
                        items_view(items@.subrange(i as int + 1, n)),
                        prefix@,
                    )));
                }
            }
            Option::None => {}
        }
        i += 1;
    }
    proof {
        assert(items_view(items@.subrange(items@.len() as int, items@.len() as int))
            =~= Seq::<GItem>::empty());
        assert(items_view(out@) =~= items_view(out@) + Seq::<GItem>::empty());
    }
    out
}

/// No chapter of the item's subtree is private.
pub open spec fn item_public(item: GItem, prefix: Seq<u8>) -> bool
    decreases item,
{
    match item {
        GItem::Chapter(ch) => !chapter_is_private(ch, prefix) && all_public(
            ch.sub_items,
            prefix,
        ),
        _ => true,
    }
}

/// No chapter anywhere in the forest is private.
pub open spec fn all_public(items: Seq<GItem>, prefix: Seq<u8>) -> bool
    decreases items,
{
    if items.len() == 0 {
        true
    } else {
        item_public(items[0], prefix) && all_public(
            items.subrange(1, items.len() as int),
            prefix,
        )
    }
}

/// A kept item holds no private chapter at any depth: whatever the filter
/// keeps is public through and through.
pub proof fn lemma_filter_item_public(item: GItem, prefix: Seq<u8>)
    ensures
        match filter_item_spec(item, prefix) {
            Option::Some(x) => item_public(x, prefix),
            Option::None => true,
        },
    decreases item,
{
    match item {
        GItem::Chapter(ch) => {
            if !chapter_is_private(ch, prefix) {
                lemma_filter_items_public(ch.sub_items, prefix);
            }
        }
        _ => {}
    }
}

/// The filtered forest holds no private chapter at any depth: every chapter
/// whose source file name starts with the prefix, and all of its
/// descendants, are absent from the output.
pub proof fn lemma_filter_items_public(items: Seq<GItem>, prefix: Seq<u8>)
    ensures
        all_public(filter_items_spec(items, prefix), prefix),
    decreases items,
{
    if items.len() > 0 {
        let rest = filter_items_spec(items.subrange(1, items.len() as int), prefix);
        lemma_filter_item_public(items[0], prefix);
        lemma_filter_items_public(items.subrange(1, items.len() as int), prefix);
        match filter_item_spec(items[0], prefix) {
            Option::Some(x) => {
                assert((seq![x] + rest).subrange(1, (seq![x] + rest).len() as int) =~= rest);
            }
            Option::None => {}
        }
    }
}

} // verus!
