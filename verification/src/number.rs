//! The renumberer: after filtering, every chapter that carries a structural
//! number is assigned a fresh one reflecting the smaller tree. At each level
//! a counter starts at one and advances only over numbered chapters, so the
//! numbers of a sibling group are dense again; unnumbered chapters are left
//! exactly as they are, their subtrees included.

use vstd::prelude::*;
use crate::tree::{
    BookItem, Chapter, GChapter, GItem, chapter_view, copy_bytes, copy_bytes_opt, copy_item,
    copy_names, copy_nums, item_view, items_view, lemma_items_view_index, lemma_items_view_push,
    lemma_items_view_subrange,
};

verus! {

/// The renumbered list: the chapter at each numbered position gets
/// `path` extended with the value of the level's counter, and its children
/// are renumbered under that extended path; everything else stays.
pub open spec fn renumber_items_spec(items: Seq<GItem>, path: Seq<u64>, count: int) -> Seq<GItem>
    decreases items,
{
    if items.len() == 0 {
        Seq::empty()
    } else {
        let rest = items.subrange(1, items.len() as int);
        match items[0] {
            GItem::Chapter(ch) => {
                if ch.number is Some {
                    seq![GItem::Chapter(renumber_chapter_spec(ch, path.push(((count + 1) as u64))))]
                        + renumber_items_spec(rest, path, count + 1)
                } else {
                    seq![items[0]] + renumber_items_spec(rest, path, count)
                }
            }
            _ => seq![items[0]] + renumber_items_spec(rest, path, count),
        }
    }
}

/// A numbered chapter under its fresh number: the number is assigned and the
/// children are renumbered under it.
pub open spec fn renumber_chapter_spec(ch: GChapter, num: Seq<u64>) -> GChapter
    decreases ch,
{
    GChapter {
        number: Option::Some(num),
        sub_items: renumber_items_spec(ch.sub_items, num, 0),
        ..ch
    }
}

/// Renumbers a numbered chapter: assigns `num` and renumbers the children
/// under it.
fn renumber_chapter(ch: &Chapter, num: Vec<u64>) -> (r: BookItem)
    ensures
        item_view(r) == GItem::Chapter(renumber_chapter_spec(chapter_view(*ch), num@)),
    decreases *ch,
{
    let subs = renumber_sub_items(&ch.sub_items, &num);
    BookItem::Chapter(Chapter {
        name: copy_bytes(&ch.name),
        content: copy_bytes(&ch.content),
        number: Option::Some(num),
        sub_items: subs,
        path: copy_bytes_opt(&ch.path),
        source_path: copy_bytes_opt(&ch.source_path),
        parent_names: copy_names(&ch.parent_names),
    })
}

/// Renumbers a list of items under the number path of their parent.
pub fn renumber_sub_items(items: &Vec<BookItem>, path: &Vec<u64>) -> (r: Vec<BookItem>)
    ensures
        items_view(r@) == renumber_items_spec(items_view(items@), path@, 0),
    decreases items@,
{
    let mut out: Vec<BookItem> = Vec::new();
    let mut i: usize = 0;
    let mut count: usize = 0;
    proof {
        assert(items@.subrange(0, items@.len() as int) =~= items@);
        assert(items_view(out@) + renumber_items_spec(items_view(items@), path@, 0)
            =~= renumber_items_spec(items_view(items@), path@, 0));
    }
    #[verifier::loop_isolation(false)]
    while i < items.len()
        invariant
            i <= items.len(),
            count <= i,
            renumber_items_spec(items_view(items@), path@, 0) == items_view(out@)
                + renumber_items_spec(
                items_view(items@.subrange(i as int, items@.len() as int)),
                path@,
                count as int,
            ),
        decreases items.len() - i,
    {
        let ghost n = items@.len() as int;
        proof {
            lemma_items_view_subrange(items@, i as int, n);
            lemma_items_view_subrange(items@, i as int + 1, n);
            lemma_items_view_index(items@);
            assert(items_view(items@).subrange(i as int, n).subrange(
                1,
                items_view(items@).subrange(i as int, n).len() as int,
            ) =~= items_view(items@).subrange(i as int + 1, n));
            assert(items_view(items@.subrange(i as int, n))[0] == item_view(items@[i as int]));
        }
        let ghost out_before = out@;
        let ghost rest_spec = renumber_items_spec(
            items_view(items@.subrange(i as int + 1, n)),
            path@,
            count as int,
        );
        let mut numbered = false;
        match &items[i] {
            BookItem::Chapter(ch) => {
                if ch.number.is_some() {
                    numbered = true;
                    let mut num = copy_nums(path);
                    num.push((count as u64) + 1);
                    let x = renumber_chapter(ch, num);
                    out.push(x);
                    count += 1;
                    proof {
                        lemma_items_view_push(out_before, x);
                        assert(items_view(out@) + renumber_items_spec(
                            items_view(items@.subrange(i as int + 1, n)),
                            path@,
                            count as int,
                        ) =~= items_view(out_before) + (seq![item_view(x)]
                            + renumber_items_spec(
                            items_view(items@.subrange(i as int + 1, n)),
                            path@,
                            count as int,
                        )));
                    }
                }
            }
            _ => {}
        }
        if !numbered {
            let x = copy_item(&items[i]);
            out.push(x);
            proof {
                lemma_items_view_push(out_before, x);
                assert(items_view(out@) + rest_spec =~= items_view(out_before) + (seq![item_view(
                    x,
                )] + rest_spec));
            }
        }
        i += 1;
    }
    proof {
        assert(items_view(items@.subrange(items@.len() as int, items@.len() as int))
            =~= Seq::<GItem>::empty());
        assert(items_view(out@) =~= items_view(out@) + Seq::<GItem>::empty());
    }
    out
}

/// The numbers of a renumbered list are well formed under `path` with the
/// counter at `count`: each numbered chapter carries `path` extended by the
/// counter's next value, the counter advances over numbered chapters only,
/// and the children of each numbered chapter are well formed under its
/// number.
pub open spec fn well_numbered_items(items: Seq<GItem>, path: Seq<u64>, count: int) -> bool
    decreases items,
{
    if items.len() == 0 {
        true
    } else {
        let rest = items.subrange(1, items.len() as int);
        match items[0] {
            GItem::Chapter(ch) => {
                if ch.number is Some {
                    &&& ch.number == Option::Some(path.push((count + 1) as u64))
                    &&& well_numbered_items(ch.sub_items, path.push((count + 1) as u64), 0)
                    &&& well_numbered_items(rest, path, count + 1)
                } else {
                    well_numbered_items(rest, path, count)
                }
            }
            _ => well_numbered_items(rest, path, count),
        }
    }
}

/// Renumbering makes the numbers well formed: at every level the numbered
/// survivors carry a dense run of sibling numbers starting after `count`,
/// each number extends the parent's by one entry, and the subtree of every
/// numbered chapter is well formed under its new number.
pub proof fn lemma_renumber_well_numbered(items: Seq<GItem>, path: Seq<u64>, count: int)
    ensures
        well_numbered_items(renumber_items_spec(items, path, count), path, count),
    decreases items,
{
    if items.len() > 0 {
        let rest = items.subrange(1, items.len() as int);
        match items[0] {
            GItem::Chapter(ch) => {
                if ch.number is Some {
                    let num = path.push(((count + 1) as u64));
                    lemma_renumber_well_numbered(ch.sub_items, num, 0);
                    lemma_renumber_well_numbered(rest, path, count + 1);
                    let x = GItem::Chapter(renumber_chapter_spec(ch, num));
                    let whole = seq![x] + renumber_items_spec(rest, path, count + 1);
                    assert(whole.subrange(1, whole.len() as int) =~= renumber_items_spec(
                        rest,
                        path,
                        count + 1,
                    ));
                } else {
                    lemma_renumber_well_numbered(rest, path, count);
                    let whole = seq![items[0]] + renumber_items_spec(rest, path, count);
                    assert(whole.subrange(1, whole.len() as int) =~= renumber_items_spec(
                        rest,
                        path,
                        count,
                    ));
                }
            }
            _ => {
                lemma_renumber_well_numbered(rest, path, count);
                let whole = seq![items[0]] + renumber_items_spec(rest, path, count);
                assert(whole.subrange(1, whole.len() as int) =~= renumber_items_spec(
                    rest,
                    path,
                    count,
                ));
            }
        }
    }
}

/// How one item relates to its renumbered self: a numbered chapter keeps its
/// name, text, identifiers and ancestors and stays numbered; an unnumbered
/// chapter, or any other item, is left exactly as it was.
pub open spec fn renumbered_item_rel(before: GItem, after: GItem) -> bool {
    match before {
        GItem::Chapter(ch) => {
            if ch.number is Some {
                match after {
                    GItem::Chapter(ach) => {
                        &&& ach.number is Some
                        &&& ach.name == ch.name
                        &&& ach.content == ch.content
                        &&& ach.path == ch.path
                        &&& ach.source_path == ch.source_path
                        &&& ach.parent_names == ch.parent_names
                    }
                    _ => false,
                }
            } else {
                after == before
            }
        }
        _ => after == before,
    }
}

/// Renumbering keeps the list's length and order, touches nothing of an
/// item but its numbers, and returns every unnumbered chapter unchanged,
/// its subtree included.
pub proof fn lemma_renumber_shape(items: Seq<GItem>, path: Seq<u64>, count: int)
    ensures
        renumber_items_spec(items, path, count).len() == items.len(),
        forall|j: int| 0 <= j < items.len() ==> renumbered_item_rel(
            items[j],
            renumber_items_spec(items, path, count)[j],
        ),
    decreases items,
{
    if items.len() > 0 {
        let rest = items.subrange(1, items.len() as int);
        let whole = renumber_items_spec(items, path, count);
        let next = match items[0] {
            GItem::Chapter(ch) => if ch.number is Some {
                count + 1
            } else {
                count
            },
            _ => count,
        };
        lemma_renumber_shape(rest, path, next);
        match items[0] {
            GItem::Chapter(ch) => {
                if ch.number is Some {
                    let x = GItem::Chapter(
                        renumber_chapter_spec(ch, path.push(((count + 1) as u64))),
                    );
                    assert(whole == seq![x] + renumber_items_spec(rest, path, count + 1));
                    assert(whole[0] == x);
                } else {
                    assert(whole[0] == items[0]);
                }
            }
            _ => {
                assert(whole[0] == items[0]);
            }
        }
        assert(renumbered_item_rel(items[0], whole[0]));
        assert forall|j: int| 1 <= j < items.len() implies renumbered_item_rel(
            items[j],
            whole[j],
        ) by {
            assert(whole[j] == renumber_items_spec(rest, path, next)[j - 1]);
            assert(items[j] == rest[j - 1]);
        };
    }
}

} // verus!
