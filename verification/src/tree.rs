//! The document tree: an ordered list of items, each a chapter or an opaque
//! marker, together with a ghost mirror of the tree used by the contracts.

use vstd::prelude::*;

verus! {

/// A chapter of the book. Text is held as bytes; the structural number is an
/// ordered list of positive integers, or absent for unnumbered chapters.
#[derive(Debug, PartialEq, Eq)]
pub struct Chapter {
    pub name: Vec<u8>,
    pub content: Vec<u8>,
    pub number: Option<Vec<u64>>,
    pub sub_items: Vec<BookItem>,
    pub path: Option<Vec<u8>>,
    pub source_path: Option<Vec<u8>>,
    pub parent_names: Vec<Vec<u8>>,
}

/// One entry of the tree: a chapter, a separator, or a part title.
/// Non-chapter entries carry no children and pass through transforms.
#[derive(Debug, PartialEq, Eq)]
pub enum BookItem {
    Chapter(Chapter),
    Separator,
    PartTitle(Vec<u8>),
}

/// The whole tree: the ordered top-level items.
#[derive(Debug, PartialEq, Eq)]
pub struct Book {
    pub sections: Vec<BookItem>,
}

/// Ghost mirror of `Chapter`, with mathematical sequences for every list.
pub ghost struct GChapter {
    pub name: Seq<u8>,
    pub content: Seq<u8>,
    pub number: Option<Seq<u64>>,
    pub sub_items: Seq<GItem>,
    pub path: Option<Seq<u8>>,
    pub source_path: Option<Seq<u8>>,
    pub parent_names: Seq<Seq<u8>>,
}

/// Ghost mirror of `BookItem`.
pub ghost enum GItem {
    Chapter(GChapter),
    Separator,
    PartTitle(Seq<u8>),
}

pub open spec fn bytes_opt_view(o: Option<Vec<u8>>) -> Option<Seq<u8>> {
    match o {
        Option::Some(v) => Option::Some(v@),
        Option::None => Option::None,
    }
}

pub open spec fn num_opt_view(o: Option<Vec<u64>>) -> Option<Seq<u64>> {
    match o {
        Option::Some(v) => Option::Some(v@),
        Option::None => Option::None,
    }
}

pub open spec fn names_view(s: Seq<Vec<u8>>) -> Seq<Seq<u8>> {
    Seq::new(s.len(), |i: int| s[i]@)
}

pub open spec fn item_view(item: BookItem) -> GItem
    decreases item,
{
    match item {
        BookItem::Chapter(ch) => GItem::Chapter(chapter_view(ch)),
        BookItem::Separator => GItem::Separator,
        BookItem::PartTitle(t) => GItem::PartTitle(t@),
    }
}

pub open spec fn chapter_view(ch: Chapter) -> GChapter
    decreases ch,
{
    GChapter {
        name: ch.name@,
        content: ch.content@,
        number: num_opt_view(ch.number),
        sub_items: items_view(ch.sub_items@),
        path: bytes_opt_view(ch.path),
        source_path: bytes_opt_view(ch.source_path),
        parent_names: names_view(ch.parent_names@),
    }
}

pub open spec fn items_view(items: Seq<BookItem>) -> Seq<GItem>
    decreases items,
{
    if items.len() == 0 {
        Seq::empty()
    } else {
        seq![item_view(items[0])] + items_view(items.subrange(1, items.len() as int))
    }
}

pub open spec fn book_view(b: Book) -> Seq<GItem> {
    items_view(b.sections@)
}

/// The ghost view of a list of items has the same length and is the view
/// taken item by item.
pub proof fn lemma_items_view_index(items: Seq<BookItem>)
    ensures
        items_view(items).len() == items.len(),
        forall|j: int| 0 <= j < items.len() ==> items_view(items)[j] == item_view(items[j]),
    decreases items,
{
    if items.len() > 0 {
        lemma_items_view_index(items.subrange(1, items.len() as int));
    }
}

/// Viewing a list commutes with appending one item at its end.
pub proof fn lemma_items_view_push(s: Seq<BookItem>, x: BookItem)
    ensures
        items_view(s.push(x)) == items_view(s).push(item_view(x)),
{
    lemma_items_view_index(s.push(x));
    lemma_items_view_index(s);
    assert(items_view(s.push(x)) =~= items_view(s).push(item_view(x)));
}

/// Viewing a list commutes with taking a subrange.
pub proof fn lemma_items_view_subrange(s: Seq<BookItem>, a: int, b: int)
    requires
        0 <= a <= b <= s.len(),
    ensures
        items_view(s.subrange(a, b)) == items_view(s).subrange(a, b),
{
    lemma_items_view_index(s.subrange(a, b));
    lemma_items_view_index(s);
    assert(items_view(s.subrange(a, b)) =~= items_view(s).subrange(a, b));
}

/// Copies a byte vector.
pub fn copy_bytes(v: &Vec<u8>) -> (r: Vec<u8>)
    ensures
        r@ == v@,
{
    let mut out: Vec<u8> = Vec::new();
    let mut i: usize = 0;
    while i < v.len()
        invariant
            i <= v.len(),
            out@ == v@.subrange(0, i as int),
        decreases v.len() - i,
    {
        out.push(v[i]);
        i += 1;
        proof {
            assert(out@ =~= v@.subrange(0, i as int));
        }
    }
    proof {
        assert(out@ =~= v@);
    }
    out
}

/// Copies an optional byte vector.
pub fn copy_bytes_opt(v: &Option<Vec<u8>>) -> (r: Option<Vec<u8>>)
    ensures
        bytes_opt_view(r) == bytes_opt_view(*v),
{
    match v {
        Option::Some(b) => Option::Some(copy_bytes(b)),
        Option::None => Option::None,
    }
}

/// Copies a vector of numbers.
pub fn copy_nums(v: &Vec<u64>) -> (r: Vec<u64>)
    ensures
        r@ == v@,
{
    let mut out: Vec<u64> = Vec::new();
    let mut i: usize = 0;
    while i < v.len()
        invariant
            i <= v.len(),
            out@ == v@.subrange(0, i as int),
        decreases v.len() - i,
    {
        out.push(v[i]);
        i += 1;
        proof {
            assert(out@ =~= v@.subrange(0, i as int));
        }
    }
    proof {
        assert(out@ =~= v@);
    }
    out
}

/// Copies an optional vector of numbers.
pub fn copy_nums_opt(v: &Option<Vec<u64>>) -> (r: Option<Vec<u64>>)
    ensures
        num_opt_view(r) == num_opt_view(*v),
{
    match v {
        Option::Some(n) => Option::Some(copy_nums(n)),
        Option::None => Option::None,
    }
}

/// Copies a list of names.
pub fn copy_names(v: &Vec<Vec<u8>>) -> (r: Vec<Vec<u8>>)
    ensures
        names_view(r@) == names_view(v@),
{
    let mut out: Vec<Vec<u8>> = Vec::new();
    let mut i: usize = 0;
    while i < v.len()
        invariant
            i <= v.len(),
            out@.len() == i,
            forall|j: int| 0 <= j < i ==> out@[j]@ == v@[j]@,
        decreases v.len() - i,
    {
        out.push(copy_bytes(&v[i]));
        i += 1;
    }
    proof {
        assert(names_view(out@) =~= names_view(v@));
    }
    out
}

/// Copies one item of the tree, children included.
pub fn copy_item(item: &BookItem) -> (r: BookItem)
    ensures
        item_view(r) == item_view(*item),
    decreases *item,
{
    match item {
        BookItem::Chapter(ch) => {
            let mut subs: Vec<BookItem> = Vec::new();
            let mut i: usize = 0;
            #[verifier::loop_isolation(false)]
            while i < ch.sub_items.len()
                invariant
                    i <= ch.sub_items.len(),
                    items_view(subs@) == items_view(ch.sub_items@.subrange(0, i as int)),
                decreases ch.sub_items.len() - i,
            {
                let ghost subs_before = subs@;
                let s = copy_item(&ch.sub_items[i]);
                subs.push(s);
                proof {
                    lemma_items_view_push(subs_before, s);
                    lemma_items_view_push(
                        ch.sub_items@.subrange(0, i as int),
                        ch.sub_items@[i as int],
                    );
                    assert(ch.sub_items@.subrange(0, i as int).push(ch.sub_items@[i as int])
                        =~= ch.sub_items@.subrange(0, i + 1));
                }
                i += 1;
            }
            proof {
                assert(ch.sub_items@.subrange(0, ch.sub_items@.len() as int) =~= ch.sub_items@);
            }
            BookItem::Chapter(Chapter {
                name: copy_bytes(&ch.name),
                content: copy_bytes(&ch.content),
                number: copy_nums_opt(&ch.number),
                sub_items: subs,
                path: copy_bytes_opt(&ch.path),
                source_path: copy_bytes_opt(&ch.source_path),
                parent_names: copy_names(&ch.parent_names),
            })
        }
        BookItem::Separator => BookItem::Separator,
        BookItem::PartTitle(t) => BookItem::PartTitle(copy_bytes(t)),
    }
}

} // verus!
