//! A plain model of structured DICOM metadata: an object is a list of
//! elements, each a tag, a value representation, the encoded length the
//! codec reported, and a plain value. The logic that reads and assembles
//! metadata works on this model; the binary encoding itself stays with the
//! external codec.

pub mod tags;

use crate::sql::join_sep;
use crate::studies::models::metadata::{
    first_match_idx, lemma_first_match_found, lemma_first_match_idx, lemma_first_match_none,
    upsert,
};
use vstd::prelude::*;

verus! {

/// An already-encoded image response: its media type and its bytes.
#[derive(Debug)]
pub struct Image(pub &'static str, pub Vec<u8>);

/// The value representation of an element, as far as the archive's rules
/// need to tell them apart.
#[derive(Clone, Copy, Debug, PartialEq, Eq, Structural)]
pub enum Vr {
    CS,
    DA,
    TM,
    IS,
    UI,
    UR,
    US,
    LO,
    SH,
    PN,
    SQ,
    OB,
    OW,
    UN,
    Other,
}

/// The plain value of an element: a single string, a multi-valued string,
/// or a sequence of nested objects.
#[derive(Debug)]
pub enum DicomValue {
    Text(String),
    MultiText(Vec<String>),
    Items(Vec<DicomObject>),
}

/// One metadata element.
#[derive(Debug)]
pub struct DicomElement {
    pub tag: u32,
    pub vr: Vr,
    /// The encoded value length the codec reported when the element was
    /// parsed.
    pub length: u64,
    pub value: DicomValue,
}

/// A structured metadata object: its elements, in order.
#[derive(Debug)]
pub struct DicomObject {
    pub elements: Vec<DicomElement>,
}

/// The predicate "this element bears the tag".
pub open spec fn tag_pred(tag: u32) -> spec_fn(DicomElement) -> bool {
    |e: DicomElement| e.tag == tag
}

/// The first element bearing the tag, if any.
pub open spec fn elem_lookup(elems: Seq<DicomElement>, tag: u32) -> Option<DicomElement> {
    match first_match_idx(elems, tag_pred(tag)) {
        Some(i) => Some(elems[i]),
        None => None,
    }
}

/// The single string an element's value reads as: a plain string itself, a
/// multi-valued string joined with backslashes, and nothing for nested
/// items.
pub open spec fn value_str(v: DicomValue) -> Option<Seq<char>> {
    match v {
        DicomValue::Text(s) => Some(s@),
        DicomValue::MultiText(vs) => Some(join_sep(vs.deep_view(), "\\"@)),
        DicomValue::Items(_) => None,
    }
}

/// The string value of the element bearing the tag, if the element exists
/// and reads as a string.
pub open spec fn element_str(elems: Seq<DicomElement>, tag: u32) -> Option<Seq<char>> {
    match elem_lookup(elems, tag) {
        Some(e) => value_str(e.value),
        None => None,
    }
}

impl DicomObject {
    /// An object with no elements.
    pub fn new_empty() -> (r: DicomObject)
        ensures
            r.elements@.len() == 0,
    {
        DicomObject { elements: Vec::new() }
    }

    /// Insert an element: replaces the element bearing the same tag, or
    /// appends.
    pub fn put(&mut self, e: DicomElement)
        ensures
            final(self).elements@ == upsert(old(self).elements@, tag_pred(e.tag), e),
            forall|t: u32|
                t != e.tag ==> #[trigger] elem_lookup(final(self).elements@, t) == elem_lookup(
                    old(self).elements@,
                    t,
                ),
            elem_lookup(final(self).elements@, e.tag) == Some(e),
    {
        let ghost p = tag_pred(e.tag);
        let ghost orig = self.elements@;
        let mut i: usize = 0;
        let mut found: Option<usize> = None;
        while i < self.elements.len()
            invariant
                i <= self.elements@.len(),
                self.elements@ == orig,
                p == tag_pred(e.tag),
                match found {
                    Some(j) => j < orig.len() && first_match_idx(orig, p) == Some(j as int),
                    None => forall|k: int| 0 <= k < i ==> !p(#[trigger] orig[k]),
                },
            decreases self.elements@.len() - i,
        {
            if found.is_none() {
                if self.elements[i].tag == e.tag {
                    proof {
                        lemma_first_match_found(orig, p, i as int);
                    }
                    found = Some(i);
                }
            }
            i += 1;
        }
        proof {
            if found is None {
                lemma_first_match_none(orig, p);
            }
        }
        match found {
            Some(j) => {
                self.elements.set(j, e);
            },
            None => {
                self.elements.push(e);
            },
        }
        proof {
            lemma_upsert_lookup(orig, e);
        }
    }

    /// Remove and return the first element bearing the tag; lookups of
    /// every other tag are unchanged.
    pub fn take(&mut self, tag: u32) -> (r: Option<DicomElement>)
        ensures
            match r {
                Some(e) => elem_lookup(old(self).elements@, tag) == Some(e) && e.tag == tag,
                None => elem_lookup(old(self).elements@, tag) is None && final(self).elements@
                    == old(self).elements@,
            },
            forall|t: u32|
                t != tag ==> #[trigger] elem_lookup(final(self).elements@, t) == elem_lookup(
                    old(self).elements@,
                    t,
                ),
            elem_lookup(final(self).elements@, tag) is None || elem_lookup(
                old(self).elements@,
                tag,
            ) is Some,
    {
        let ghost p = tag_pred(tag);
        let ghost orig = self.elements@;
        let mut i: usize = 0;
        while i < self.elements.len()
            invariant
                i <= self.elements@.len(),
                self.elements@ == orig,
                orig == old(self).elements@,
                p == tag_pred(tag),
                forall|k: int| 0 <= k < i ==> !p(#[trigger] orig[k]),
            decreases self.elements@.len() - i,
        {
            if self.elements[i].tag == tag {
                proof {
                    lemma_first_match_found(orig, p, i as int);
                }
                let e = self.elements.remove(i);
                proof {
                    assert(self.elements@ =~= orig.remove(i as int));
                    lemma_remove_lookup(orig, i as int);
                }
                return Some(e);
            }
            i += 1;
        }
        proof {
            lemma_first_match_none(orig, p);
        }
        None
    }

    /// The first element bearing the tag, if any.
    pub fn element(&self, tag: u32) -> (r: Option<&DicomElement>)
        ensures
            match r {
                Some(e) => elem_lookup(self.elements@, tag) == Some(*e),
                None => elem_lookup(self.elements@, tag) is None,
            },
    {
        let ghost p = tag_pred(tag);
        let mut i: usize = 0;
        while i < self.elements.len()
            invariant
                i <= self.elements@.len(),
                p == tag_pred(tag),
                forall|k: int| 0 <= k < i ==> !p(#[trigger] self.elements@[k]),
            decreases self.elements@.len() - i,
        {
            if self.elements[i].tag == tag {
                proof {
                    lemma_first_match_found(self.elements@, p, i as int);
                }
                return Some(&self.elements[i]);
            }
            i += 1;
        }
        proof {
            lemma_first_match_none(self.elements@, p);
        }
        None
    }
}

proof fn lemma_upsert_lookup(elems: Seq<DicomElement>, e: DicomElement)
    ensures
        elem_lookup(upsert(elems, tag_pred(e.tag), e), e.tag) == Some(e),
        forall|t: u32|
            t != e.tag ==> #[trigger] elem_lookup(upsert(elems, tag_pred(e.tag), e), t)
                == elem_lookup(elems, t),
{
    let p = tag_pred(e.tag);
    lemma_first_match_idx(elems, p);
    let post = upsert(elems, p, e);
    match first_match_idx(elems, p) {
        Some(i) => {
            assert(post == elems.update(i, e));
            assert forall|k: int| 0 <= k < i implies !p(#[trigger] post[k]) by {
                assert(post[k] == elems[k]);
            }
            lemma_first_match_found(post, p, i);
            assert forall|t: u32|
                t != e.tag implies #[trigger] elem_lookup(post, t) == elem_lookup(elems, t) by {
                let q = tag_pred(t);
                lemma_first_match_idx(elems, q);
                match first_match_idx(elems, q) {
                    Some(j) => {
                        assert(j != i);
                        assert(post[j] == elems[j]);
                        assert forall|k: int| 0 <= k < j implies !q(#[trigger] post[k]) by {
                            if k != i {
                                assert(post[k] == elems[k]);
                            }
                        }
                        lemma_first_match_found(post, q, j);
                    },
                    None => {
                        assert forall|k: int| 0 <= k < post.len() implies !q(
                            #[trigger] post[k],
                        ) by {
                            if k != i {
                                assert(post[k] == elems[k]);
                            }
                        }
                        lemma_first_match_none(post, q);
                    },
                }
            }
        },
        None => {
            assert(post == elems.push(e));
            assert forall|k: int| 0 <= k < elems.len() implies !p(#[trigger] post[k]) by {
                assert(post[k] == elems[k]);
            }
            assert(post[elems.len() as int] == e);
            lemma_first_match_found(post, p, elems.len() as int);
            assert forall|t: u32|
                t != e.tag implies #[trigger] elem_lookup(post, t) == elem_lookup(elems, t) by {
                let q = tag_pred(t);
                lemma_first_match_idx(elems, q);
                match first_match_idx(elems, q) {
                    Some(j) => {
                        assert(post[j] == elems[j]);
                        assert forall|k: int| 0 <= k < j implies !q(#[trigger] post[k]) by {
                            assert(post[k] == elems[k]);
                        }
                        lemma_first_match_found(post, q, j);
                    },
                    None => {
                        assert forall|k: int| 0 <= k < post.len() implies !q(
                            #[trigger] post[k],
                        ) by {
                            if k < elems.len() {
                                assert(post[k] == elems[k]);
                            } else {
                                assert(post[k] == e);
                            }
                        }
                        lemma_first_match_none(post, q);
                    },
                }
            }
        },
    }
}

proof fn lemma_remove_lookup(elems: Seq<DicomElement>, i: int)
    requires
        0 <= i < elems.len(),
        first_match_idx(elems, tag_pred(elems[i].tag)) == Some(i),
    ensures
        forall|t: u32|
            t != elems[i].tag ==> #[trigger] elem_lookup(elems.remove(i), t) == elem_lookup(
                elems,
                t,
            ),
        elem_lookup(elems.remove(i), elems[i].tag) is None || elem_lookup(
            elems,
            elems[i].tag,
        ) is Some,
{
    let post = elems.remove(i);
    assert forall|t: u32|
        t != elems[i].tag implies #[trigger] elem_lookup(post, t) == elem_lookup(elems, t) by {
        let q = tag_pred(t);
        lemma_first_match_idx(elems, q);
        match first_match_idx(elems, q) {
            Some(j) => {
                assert(j != i);
                if j < i {
                    assert(post[j] == elems[j]);
                    assert forall|k: int| 0 <= k < j implies !q(#[trigger] post[k]) by {
                        assert(post[k] == elems[k]);
                    }
                    lemma_first_match_found(post, q, j);
                } else {
                    assert(post[j - 1] == elems[j]);
                    assert forall|k: int| 0 <= k < j - 1 implies !q(#[trigger] post[k]) by {
                        if k < i {
                            assert(post[k] == elems[k]);
                        } else {
                            assert(post[k] == elems[k + 1]);
                        }
                    }
                    lemma_first_match_found(post, q, j - 1);
                }
            },
            None => {
                assert forall|k: int| 0 <= k < post.len() implies !q(#[trigger] post[k]) by {
                    if k < i {
                        assert(post[k] == elems[k]);
                    } else {
                        assert(post[k] == elems[k + 1]);
                    }
                }
                lemma_first_match_none(post, q);
            },
        }
    }
}

/// Join strings with backslashes, as a multi-valued attribute reads.
fn join_backslash(parts: &Vec<String>) -> (r: String)
    ensures
        r@ == join_sep(parts.deep_view(), "\\"@),
{
    let ghost all = parts.deep_view();
    let mut s = String::new();
    let mut i: usize = 0;
    while i < parts.len()
        invariant
            i <= parts@.len(),
            all == parts.deep_view(),
            all.len() == parts@.len(),
            forall|k: int| 0 <= k < all.len() ==> all[k] == #[trigger] parts@[k]@,
            s@ == join_sep(all.take(i as int), "\\"@),
        decreases parts@.len() - i,
    {
        if i > 0 {
            s.append("\\");
        }
        s.append(parts[i].as_str());
        proof {
            assert(all.take(i + 1 as int).drop_last() =~= all.take(i as int));
            assert(all.take(i + 1 as int).last() == all[i as int]);
            if i == 0 {
                assert(s@ =~= join_sep(all.take(1), "\\"@));
            }
        }
        i += 1;
    }
    proof {
        assert(all.take(all.len() as int) == all);
    }
    s
}

/// The string value of the attribute bearing the tag, if present and
/// string-like.
pub fn element_to_str(obj: &DicomObject, tag: u32) -> (r: Option<String>)
    ensures
        match r {
            Some(s) => element_str(obj.elements@, tag) == Some(s@),
            None => element_str(obj.elements@, tag) is None,
        },
{
    match obj.element(tag) {
        None => None,
        Some(e) => match &e.value {
            DicomValue::Text(s) => Some(String::from_str(s.as_str())),
            DicomValue::MultiText(vs) => Some(join_backslash(vs)),
            DicomValue::Items(_) => None,
        },
    }
}

/// The string value of the element bearing the tag, or the empty string
/// when the element is absent or not string-like.
pub open spec fn element_str_or_empty(elems: Seq<DicomElement>, tag: u32) -> Seq<char> {
    match element_str(elems, tag) {
        Some(s) => s,
        None => Seq::<char>::empty(),
    }
}

/// The string value of the attribute bearing the tag, or the empty string
/// when the attribute is absent or not string-like.
pub fn empty_if_unknown(obj: &DicomObject, tag: u32) -> (r: String)
    ensures
        r@ == element_str_or_empty(obj.elements@, tag),
{
    match element_to_str(obj, tag) {
        Some(s) => s,
        None => String::new(),
    }
}

/// Whether the metadata view keeps an element: bulk binary data is
/// dropped, and so is any sequence longer than a megabyte.
pub open spec fn metadata_keeps(e: DicomElement) -> bool {
    &&& e.vr != Vr::OB
    &&& e.vr != Vr::OW
    &&& e.vr != Vr::UN
    &&& !(e.vr == Vr::SQ && e.length > 1000000)
}

/// Filter an object down to its metadata view: every element except bulk
/// binary data and oversized sequences, in order.
pub fn filter_dicom_elements(obj: DicomObject) -> (r: DicomObject)
    ensures
        r.elements@ == obj.elements@.filter(|e: DicomElement| metadata_keeps(e)),
{
    let ghost p = |e: DicomElement| metadata_keeps(e);
    let ghost all = obj.elements@;
    let mut kept: Vec<DicomElement> = Vec::new();
    let mut obj = obj;
    let total = obj.elements.len();
    proof {
        assert(all.len() == total);
    }
    let mut taken: usize = 0;
    proof {
        assert(all.take(0).filter(p) =~= Seq::<DicomElement>::empty());
    }
    while obj.elements.len() > 0
        invariant
            taken + obj.elements@.len() == all.len(),
            all.len() <= usize::MAX,
            taken <= all.len(),
            obj.elements@ == all.skip(taken as int),
            kept@ == all.take(taken as int).filter(p),
            p == |e: DicomElement| metadata_keeps(e),
        decreases obj.elements@.len(),
    {
        let e = obj.elements.remove(0);
        let ghost ge = e;
        proof {
            assert(ge == all[taken as int]);
            assert(obj.elements@ =~= all.skip(taken + 1 as int));
            assert(all.take(taken + 1 as int) =~= all.take(taken as int) + seq![
                all[taken as int],
            ]);
            Seq::filter_distributes_over_add(all.take(taken as int), seq![all[taken as int]], p);
            crate::studies::models::metadata::lemma_filter_one(all[taken as int], p);
        }
        let keep = match e.vr {
            Vr::OB => false,
            Vr::OW => false,
            Vr::UN => false,
            Vr::SQ => e.length <= 1000000,
            _ => true,
        };
        if keep {
            kept.push(e);
        } else {
            proof {
                assert(all.take(taken as int).filter(p) + Seq::<DicomElement>::empty() =~= all.take(
                    taken as int,
                ).filter(p));
            }
        }
        taken += 1;
    }
    proof {
        assert(all.take(all.len() as int) == all);
    }
    DicomObject { elements: kept }
}

} // verus!
