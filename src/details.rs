//! The details of a beneficiary (visits, allergies, notes), the role-scoped
//! note filter, and the composite fetch that joins them to the record.
use vstd::prelude::*;
use crate::beneficiary::{Beneficiary, detail_columns, detail_columns_of, projected, lemma_basic_details_hide_contact};
use crate::error::AuthError;
use crate::policy::{Projection, Resource, Operation, Variant, authorize, projection_of, elevated, allowed};
use crate::role::Role;
use crate::sql::Statement;
use crate::codec::{all_of_kinds, decode_records, decode_records_at, decode_value, decode_values, value_bytes, zigzag, encode_value, encode_values, kinds_of, list_bytes, records_bytes, values_bytes, varint};
use crate::error::Failure;
use crate::value::{Kind, Scalar, Value, clone_text, kind_of, scalar_kind, scalars};
use crate::text::{text_le, text_less_eq, lemma_text_le_total, lemma_text_le_transitive};

verus! {

broadcast use vstd::seq_lib::group_to_multiset_ensures;

/// One visit of a beneficiary; `date` is the formatted visit time.
#[derive(Debug)]
pub struct Presence {
    pub beneficiary_id: i32,
    pub date: String,
}

/// One allergy of a beneficiary.
#[derive(Debug)]
pub struct Allergy {
    pub beneficiary_id: i32,
    pub allergy: String,
}

/// A dated note. Type 0 is visible to every role; type 1 is reserved to the
/// elevated roles.
#[derive(Debug)]
pub struct Note {
    pub beneficiary_id: i32,
    pub date: String,
    pub kind: i8,
    pub text: String,
}

/// Everything linked to one beneficiary.
#[derive(Debug)]
pub struct Details {
    pub id: i32,
    pub presences: Vec<Presence>,
    pub allergies: Vec<Allergy>,
    pub notes: Vec<Note>,
}

impl View for Presence {
    type V = Seq<Scalar>;

    /// The values of the record, in declaration order.
    open spec fn view(&self) -> Seq<Scalar> {
        seq![
            Scalar::Int(self.beneficiary_id),
            Scalar::Text(self.date@),
        ]
    }
}

/// The values of each record of a list.
pub open spec fn presence_views(xs: Seq<Presence>) -> Seq<Seq<Scalar>> {
    xs.map_values(|x: Presence| x@)
}

/// The schema of a visit: the kind of each value, in order.
pub open spec fn presence_kinds() -> Seq<Kind> {
    seq![Kind::Int, Kind::Text]
}

impl Presence {
    /// The values of the record, in declaration order.
    pub fn to_values(&self) -> (r: Vec<Value>)
        ensures
            scalars(r@) == self@,
    {
        let r = vec![
            Value::Int(self.beneficiary_id),
            Value::Text(clone_text(&self.date)),
        ];
        proof {
            assert(scalars(r@) =~= self@);
        }
        r
    }

    /// The record whose values `vs` holds; `None` when their kinds differ
    /// from the schema.
    pub fn from_values(vs: &Vec<Value>) -> (r: Option<Presence>)
        ensures
            kinds_of(scalars(vs@)) == presence_kinds() ==> r is Some,
            r matches Some(x) ==> x@ == scalars(vs@),
    {
        if vs.len() != 2 {
            proof {
                assert(kinds_of(scalars(vs@)).len() != presence_kinds().len());
            }
            return None;
        }
        proof {
            if kinds_of(scalars(vs@)) == presence_kinds() {
                assert forall|i: int| 0 <= i < 2 implies kind_of(#[trigger] vs@[i]) == presence_kinds()[i] by {
                    assert(kinds_of(scalars(vs@))[i] == scalar_kind(vs@[i]@));
                }
            }
        }
        let beneficiary_id = match &vs[0] {
            Value::Int(x) => *x,
            _ => return None,
        };
        let date = match &vs[1] {
            Value::Text(s) => clone_text(s),
            _ => return None,
        };
        let r = Presence { beneficiary_id, date };
        proof {
            assert(r@ =~= scalars(vs@));
        }
        Some(r)
    }

    /// The encoding of the record.
    pub fn encode(&self) -> (r: Vec<u8>)
        ensures
            r@ == values_bytes(self@),
    {
        encode_values(&self.to_values())
    }

    /// The encoding of a list of records: their count, then each record.
    pub fn encode_list(items: &Vec<Presence>) -> (r: Vec<u8>)
        ensures
            r@ == list_bytes(presence_views(items@)),
    {
        let mut out: Vec<u8> = Vec::new();
        encode_value(&Value::Size(items.len() as u64), &mut out);
        let ghost views = presence_views(items@);
        let mut i: usize = 0;
        while i < items.len()
            invariant
                i <= items@.len(),
                views == presence_views(items@),
                out@ == varint(items@.len() as nat) + records_bytes(views.take(i as int)),
            decreases items@.len() - i,
        {
            let mut b = items[i].encode();
            out.append(&mut b);
            proof {
                assert(views.take(i + 1).drop_last() =~= views.take(i as int));
                assert(views.take(i + 1).last() == items@[i as int]@);
            }
            i = i + 1;
        }
        proof {
            assert(views.take(items@.len() as int) =~= views);
        }
        out
    }

    /// Decodes a record that fills `bytes` exactly: the encoding of any
    /// record decodes to an equal record, and input with bytes left over
    /// after a record is refused.
    pub fn decode(bytes: &Vec<u8>) -> (r: Option<Presence>)
        ensures
            forall|x: Presence| bytes@ == #[trigger] values_bytes(x@) ==> r is Some && (r->0)@ == x@,
    {
        let kinds = vec![Kind::Int, Kind::Text];
        proof {
            assert(kinds@ =~= presence_kinds());
            assert forall|x: Presence| bytes@ == #[trigger] values_bytes(x@) implies
                kinds_of(x@) == kinds@ && bytes@.skip(0) == values_bytes(x@) + Seq::<u8>::empty() by {
                assert(kinds_of(x@) =~= kinds@);
                assert(bytes@.skip(0) =~= values_bytes(x@) + Seq::<u8>::empty());
            }
        }
        match decode_values(bytes, 0, &kinds) {
            Some((vs, end)) => {
                if end != bytes.len() {
                    return None;
                }
                proof {
                    assert forall|x: Presence| bytes@ == #[trigger] values_bytes(x@) implies
                        kinds_of(scalars(vs@)) == presence_kinds() by {
                        assert(kinds_of(x@) =~= kinds@);
                    }
                }
                Presence::from_values(&vs)
            },
            None => None,
        }
    }
}

impl View for Allergy {
    type V = Seq<Scalar>;

    /// The values of the record, in declaration order.
    open spec fn view(&self) -> Seq<Scalar> {
        seq![
            Scalar::Int(self.beneficiary_id),
            Scalar::Text(self.allergy@),
        ]
    }
}

/// The values of each record of a list.
pub open spec fn allergy_views(xs: Seq<Allergy>) -> Seq<Seq<Scalar>> {
    xs.map_values(|x: Allergy| x@)
}

/// The schema of an allergy: the kind of each value, in order.
pub open spec fn allergy_kinds() -> Seq<Kind> {
    seq![Kind::Int, Kind::Text]
}

impl Allergy {
    /// The values of the record, in declaration order.
    pub fn to_values(&self) -> (r: Vec<Value>)
        ensures
            scalars(r@) == self@,
    {
        let r = vec![
            Value::Int(self.beneficiary_id),
            Value::Text(clone_text(&self.allergy)),
        ];
        proof {
            assert(scalars(r@) =~= self@);
        }
        r
    }

    /// The record whose values `vs` holds; `None` when their kinds differ
    /// from the schema.
    pub fn from_values(vs: &Vec<Value>) -> (r: Option<Allergy>)
        ensures
            kinds_of(scalars(vs@)) == allergy_kinds() ==> r is Some,
            r matches Some(x) ==> x@ == scalars(vs@),
    {
        if vs.len() != 2 {
            proof {
                assert(kinds_of(scalars(vs@)).len() != allergy_kinds().len());
            }
            return None;
        }
        proof {
            if kinds_of(scalars(vs@)) == allergy_kinds() {
                assert forall|i: int| 0 <= i < 2 implies kind_of(#[trigger] vs@[i]) == allergy_kinds()[i] by {
                    assert(kinds_of(scalars(vs@))[i] == scalar_kind(vs@[i]@));
                }
            }
        }
        let beneficiary_id = match &vs[0] {
            Value::Int(x) => *x,
            _ => return None,
        };
        let allergy = match &vs[1] {
            Value::Text(s) => clone_text(s),
            _ => return None,
        };
        let r = Allergy { beneficiary_id, allergy };
        proof {
            assert(r@ =~= scalars(vs@));
        }
        Some(r)
    }

    /// The encoding of the record.
    pub fn encode(&self) -> (r: Vec<u8>)
        ensures
            r@ == values_bytes(self@),
    {
        encode_values(&self.to_values())
    }

    /// The encoding of a list of records: their count, then each record.
    pub fn encode_list(items: &Vec<Allergy>) -> (r: Vec<u8>)
        ensures
            r@ == list_bytes(allergy_views(items@)),
    {
        let mut out: Vec<u8> = Vec::new();
        encode_value(&Value::Size(items.len() as u64), &mut out);
        let ghost views = allergy_views(items@);
        let mut i: usize = 0;
        while i < items.len()
            invariant
                i <= items@.len(),
                views == allergy_views(items@),
                out@ == varint(items@.len() as nat) + records_bytes(views.take(i as int)),
            decreases items@.len() - i,
        {
            let mut b = items[i].encode();
            out.append(&mut b);
            proof {
                assert(views.take(i + 1).drop_last() =~= views.take(i as int));
                assert(views.take(i + 1).last() == items@[i as int]@);
            }
            i = i + 1;
        }
        proof {
            assert(views.take(items@.len() as int) =~= views);
        }
        out
    }

    /// Decodes a record that fills `bytes` exactly: the encoding of any
    /// record decodes to an equal record, and input with bytes left over
    /// after a record is refused.
    pub fn decode(bytes: &Vec<u8>) -> (r: Option<Allergy>)
        ensures
            forall|x: Allergy| bytes@ == #[trigger] values_bytes(x@) ==> r is Some && (r->0)@ == x@,
    {
        let kinds = vec![Kind::Int, Kind::Text];
        proof {
            assert(kinds@ =~= allergy_kinds());
            assert forall|x: Allergy| bytes@ == #[trigger] values_bytes(x@) implies
                kinds_of(x@) == kinds@ && bytes@.skip(0) == values_bytes(x@) + Seq::<u8>::empty() by {
                assert(kinds_of(x@) =~= kinds@);
                assert(bytes@.skip(0) =~= values_bytes(x@) + Seq::<u8>::empty());
            }
        }
        match decode_values(bytes, 0, &kinds) {
            Some((vs, end)) => {
                if end != bytes.len() {
                    return None;
                }
                proof {
                    assert forall|x: Allergy| bytes@ == #[trigger] values_bytes(x@) implies
                        kinds_of(scalars(vs@)) == allergy_kinds() by {
                        assert(kinds_of(x@) =~= kinds@);
                    }
                }
                Allergy::from_values(&vs)
            },
            None => None,
        }
    }
}

impl View for Note {
    type V = Seq<Scalar>;

    /// The values of the record, in declaration order.
    open spec fn view(&self) -> Seq<Scalar> {
        seq![
            Scalar::Int(self.beneficiary_id),
            Scalar::Text(self.date@),
            Scalar::Tiny(self.kind),
            Scalar::Text(self.text@),
        ]
    }
}

/// The values of each record of a list.
pub open spec fn note_views(xs: Seq<Note>) -> Seq<Seq<Scalar>> {
    xs.map_values(|x: Note| x@)
}

/// The schema of a note: the kind of each value, in order.
pub open spec fn note_kinds() -> Seq<Kind> {
    seq![Kind::Int, Kind::Text, Kind::Tiny, Kind::Text]
}

impl Note {
    /// The values of the record, in declaration order.
    pub fn to_values(&self) -> (r: Vec<Value>)
        ensures
            scalars(r@) == self@,
    {
        let r = vec![
            Value::Int(self.beneficiary_id),
            Value::Text(clone_text(&self.date)),
            Value::Tiny(self.kind),
            Value::Text(clone_text(&self.text)),
        ];
        proof {
            assert(scalars(r@) =~= self@);
        }
        r
    }

    /// The record whose values `vs` holds; `None` when their kinds differ
    /// from the schema.
    pub fn from_values(vs: &Vec<Value>) -> (r: Option<Note>)
        ensures
            kinds_of(scalars(vs@)) == note_kinds() ==> r is Some,
            r matches Some(x) ==> x@ == scalars(vs@),
    {
        if vs.len() != 4 {
            proof {
                assert(kinds_of(scalars(vs@)).len() != note_kinds().len());
            }
            return None;
        }
        proof {
            if kinds_of(scalars(vs@)) == note_kinds() {
                assert forall|i: int| 0 <= i < 4 implies kind_of(#[trigger] vs@[i]) == note_kinds()[i] by {
                    assert(kinds_of(scalars(vs@))[i] == scalar_kind(vs@[i]@));
                }
            }
        }
        let beneficiary_id = match &vs[0] {
            Value::Int(x) => *x,
            _ => return None,
        };
        let date = match &vs[1] {
            Value::Text(s) => clone_text(s),
            _ => return None,
        };
        let kind = match &vs[2] {
            Value::Tiny(x) => *x,
            _ => return None,
        };
        let text = match &vs[3] {
            Value::Text(s) => clone_text(s),
            _ => return None,
        };
        let r = Note { beneficiary_id, date, kind, text };
        proof {
            assert(r@ =~= scalars(vs@));
        }
        Some(r)
    }

    /// The encoding of the record.
    pub fn encode(&self) -> (r: Vec<u8>)
        ensures
            r@ == values_bytes(self@),
    {
        encode_values(&self.to_values())
    }

    /// The encoding of a list of records: their count, then each record.
    pub fn encode_list(items: &Vec<Note>) -> (r: Vec<u8>)
        ensures
            r@ == list_bytes(note_views(items@)),
    {
        let mut out: Vec<u8> = Vec::new();
        encode_value(&Value::Size(items.len() as u64), &mut out);
        let ghost views = note_views(items@);
        let mut i: usize = 0;
        while i < items.len()
            invariant
                i <= items@.len(),
                views == note_views(items@),
                out@ == varint(items@.len() as nat) + records_bytes(views.take(i as int)),
            decreases items@.len() - i,
        {
            let mut b = items[i].encode();
            out.append(&mut b);
            proof {
                assert(views.take(i + 1).drop_last() =~= views.take(i as int));
                assert(views.take(i + 1).last() == items@[i as int]@);
            }
            i = i + 1;
        }
        proof {
            assert(views.take(items@.len() as int) =~= views);
        }
        out
    }

    /// Decodes a record that fills `bytes` exactly: the encoding of any
    /// record decodes to an equal record, and input with bytes left over
    /// after a record is refused.
    pub fn decode(bytes: &Vec<u8>) -> (r: Option<Note>)
        ensures
            forall|x: Note| bytes@ == #[trigger] values_bytes(x@) ==> r is Some && (r->0)@ == x@,
    {
        let kinds = vec![Kind::Int, Kind::Text, Kind::Tiny, Kind::Text];
        proof {
            assert(kinds@ =~= note_kinds());
            assert forall|x: Note| bytes@ == #[trigger] values_bytes(x@) implies
                kinds_of(x@) == kinds@ && bytes@.skip(0) == values_bytes(x@) + Seq::<u8>::empty() by {
                assert(kinds_of(x@) =~= kinds@);
                assert(bytes@.skip(0) =~= values_bytes(x@) + Seq::<u8>::empty());
            }
        }
        match decode_values(bytes, 0, &kinds) {
            Some((vs, end)) => {
                if end != bytes.len() {
                    return None;
                }
                proof {
                    assert forall|x: Note| bytes@ == #[trigger] values_bytes(x@) implies
                        kinds_of(scalars(vs@)) == note_kinds() by {
                        assert(kinds_of(x@) =~= kinds@);
                    }
                }
                Note::from_values(&vs)
            },
            None => None,
        }
    }
}

/// Whether a projection may read a note of type `kind`.
pub open spec fn note_visible(p: Projection, kind: i8) -> bool {
    match p {
        Projection::Basic => kind == 0,
        Projection::Extended => kind == 0 || kind == 1,
        Projection::Full => kind != 1,
    }
}

/// The notes of `notes` that belong to beneficiary `id` and that projection
/// `p` may read, in their order.
pub open spec fn visible_notes(notes: Seq<Note>, p: Projection, id: i32) -> Seq<Note> {
    notes.filter(|n: Note| n.beneficiary_id == id && note_visible(p, n.kind))
}

/// The visits of `ps` that belong to beneficiary `id`, in their order.
pub open spec fn presences_of(ps: Seq<Presence>, id: i32) -> Seq<Presence> {
    ps.filter(|x: Presence| x.beneficiary_id == id)
}

/// The allergies of `als` that belong to beneficiary `id`, in their order.
pub open spec fn allergies_of(als: Seq<Allergy>, id: i32) -> Seq<Allergy> {
    als.filter(|x: Allergy| x.beneficiary_id == id)
}

/// Visits in ascending order of their date text.
pub open spec fn sorted_by_date(s: Seq<Presence>) -> bool {
    forall|i: int, j: int| 0 <= i < j < s.len() ==> text_le(#[trigger] s[i].date@, #[trigger] s[j].date@)
}

/// Whether projection `p` may read a note of type `kind`.
pub fn note_is_visible(p: Projection, kind: i8) -> (r: bool)
    ensures
        r == note_visible(p, kind),
{
    match p {
        Projection::Basic => kind == 0,
        Projection::Extended => kind == 0 || kind == 1,
        Projection::Full => kind != 1,
    }
}

/// Keeps the notes of beneficiary `id` that projection `p` may read.
pub fn filter_notes(items: Vec<Note>, p: Projection, id: i32) -> (r: Vec<Note>)
    ensures
        r@ == visible_notes(items@, p, id),
{
    let ghost all = items@;
    let mut rest = items;
    let mut kept: Vec<Note> = Vec::new();
    let ghost mut taken: int = 0;
    while rest.len() > 0
        invariant
            taken == all.len() - rest@.len(),
            0 <= taken <= all.len(),
            rest@ == all.skip(taken),
            kept@ == visible_notes(all.take(taken), p, id),
        decreases rest.len(),
    {
        let x = rest.remove(0);
        proof {
            assert(all.skip(taken)[0] == all[taken]);
            assert(all.take(taken + 1).drop_last() =~= all.take(taken));
            assert(all.take(taken + 1).last() == all[taken]);
            reveal_with_fuel(Seq::filter, 1);
            assert(rest@ =~= all.skip(taken + 1));
        }
        if x.beneficiary_id == id && note_is_visible(p, x.kind) {
            kept.push(x);
        }
        proof {
            taken = taken + 1;
        }
    }
    proof {
        assert(all.take(all.len() as int) =~= all);
    }
    kept
}

/// Keeps the visits of beneficiary `id`.
pub fn keep_presences(items: Vec<Presence>, id: i32) -> (r: Vec<Presence>)
    ensures
        r@ == presences_of(items@, id),
{
    let ghost all = items@;
    let mut rest = items;
    let mut kept: Vec<Presence> = Vec::new();
    let ghost mut taken: int = 0;
    while rest.len() > 0
        invariant
            taken == all.len() - rest@.len(),
            0 <= taken <= all.len(),
            rest@ == all.skip(taken),
            kept@ == presences_of(all.take(taken), id),
        decreases rest.len(),
    {
        let x = rest.remove(0);
        proof {
            assert(all.skip(taken)[0] == all[taken]);
            assert(all.take(taken + 1).drop_last() =~= all.take(taken));
            assert(all.take(taken + 1).last() == all[taken]);
            reveal_with_fuel(Seq::filter, 1);
            assert(rest@ =~= all.skip(taken + 1));
        }
        if x.beneficiary_id == id {
            kept.push(x);
        }
        proof {
            taken = taken + 1;
        }
    }
    proof {
        assert(all.take(all.len() as int) =~= all);
    }
    kept
}

/// Keeps the allergies of beneficiary `id`.
pub fn keep_allergies(items: Vec<Allergy>, id: i32) -> (r: Vec<Allergy>)
    ensures
        r@ == allergies_of(items@, id),
{
    let ghost all = items@;
    let mut rest = items;
    let mut kept: Vec<Allergy> = Vec::new();
    let ghost mut taken: int = 0;
    while rest.len() > 0
        invariant
            taken == all.len() - rest@.len(),
            0 <= taken <= all.len(),
            rest@ == all.skip(taken),
            kept@ == allergies_of(all.take(taken), id),
        decreases rest.len(),
    {
        let x = rest.remove(0);
        proof {
            assert(all.skip(taken)[0] == all[taken]);
            assert(all.take(taken + 1).drop_last() =~= all.take(taken));
            assert(all.take(taken + 1).last() == all[taken]);
            reveal_with_fuel(Seq::filter, 1);
            assert(rest@ =~= all.skip(taken + 1));
        }
        if x.beneficiary_id == id {
            kept.push(x);
        }
        proof {
            taken = taken + 1;
        }
    }
    proof {
        assert(all.take(all.len() as int) =~= all);
    }
    kept
}

/// Puts the visits in ascending order of their date text; the result holds
/// the same visits, whatever order they came in.
pub fn sort_presences(presences: Vec<Presence>) -> (r: Vec<Presence>)
    ensures
        sorted_by_date(r@),
        r@.to_multiset() == presences@.to_multiset(),
{
    let mut rest = presences;
    let mut out: Vec<Presence> = Vec::new();
    while rest.len() > 0
        invariant
            sorted_by_date(out@),
            out@.to_multiset().add(rest@.to_multiset()) == presences@.to_multiset(),
        decreases rest.len(),
    {
        let ghost before = rest@;
        let x = rest.pop().unwrap();
        proof {
            assert(before =~= rest@.push(x));
        }
        let mut k: usize = 0;
        while k < out.len() && text_less_eq(&out[k].date, &x.date)
            invariant
                k <= out@.len(),
                forall|j: int| 0 <= j < k ==> text_le(#[trigger] out@[j].date@, x.date@),
            decreases out.len() - k,
        {
            k = k + 1;
        }
        let ghost old_out = out@;
        proof {
            if k < out.len() {
                assert(!text_le(old_out[k as int].date@, x.date@));
                lemma_text_le_total(old_out[k as int].date@, x.date@);
                assert forall|j: int| k <= j < old_out.len() implies text_le(x.date@, #[trigger] old_out[j].date@) by {
                    if j > k {
                        lemma_text_le_transitive(x.date@, old_out[k as int].date@, old_out[j].date@);
                    }
                }
            }
        }
        out.insert(k, x);
        proof {
            let s = out@;
            assert forall|i: int, j: int| 0 <= i < j < s.len() implies text_le(#[trigger] s[i].date@, #[trigger] s[j].date@) by {
                if i < k && j == k {
                } else if i < k && j > k {
                    assert(s[j] == old_out[j - 1]);
                } else if i == k {
                    assert(s[j] == old_out[j - 1]);
                } else if i > k {
                    assert(s[i] == old_out[i - 1]);
                    assert(s[j] == old_out[j - 1]);
                } else {
                    assert(s[i] == old_out[i]);
                    assert(s[j] == old_out[j]);
                }
            }
            assert(s.remove(k as int) =~= old_out);
            assert(s.to_multiset() =~= old_out.to_multiset().insert(x)) by {
                assert(s.remove(k as int).to_multiset() =~= s.to_multiset().remove(s[k as int]));
                assert(s.to_multiset().count(x) > 0) by {
                    assert(s.contains(x)) by {
                        assert(s[k as int] == x);
                    }
                }
            }
            assert(out@.to_multiset().add(rest@.to_multiset()) =~= presences@.to_multiset());
        }
    }
    out
}

/// `(b, d)` is what role `role` receives for beneficiary `id`, stored as
/// `stored` with the linked rows `presences`, `allergies` and `notes`.
pub open spec fn composite_read(
    role: Role,
    id: i32,
    stored: Beneficiary,
    presences: Seq<Presence>,
    allergies: Seq<Allergy>,
    notes: Seq<Note>,
    b: Beneficiary,
    d: Details,
) -> bool {
    &&& projected(b, stored, detail_columns(projection_of(role)))
    &&& d.id == id
    &&& sorted_by_date(d.presences@)
    &&& d.presences@.to_multiset() == presences_of(presences, id).to_multiset()
    &&& d.allergies@ == allergies_of(allergies, id)
    &&& d.notes@ == visible_notes(notes, projection_of(role), id)
}

/// The composite fetch of one beneficiary for `role`: the record projected to
/// the role's columns, with its visits in ascending date order, its
/// allergies, and the notes that the role may read. The three linked lists
/// are independent reads; of each, only the rows of beneficiary `id` are kept.
pub fn compose_beneficiary(
    role: Role,
    id: i32,
    stored: &Beneficiary,
    presences: Vec<Presence>,
    allergies: Vec<Allergy>,
    notes: Vec<Note>,
) -> (r: Result<(Beneficiary, Details), AuthError>)
    ensures
        !allowed(role, Resource::Beneficiary, Operation::Read) ==> r == Err::<(Beneficiary, Details), AuthError>(AuthError::Forbidden),
        allowed(role, Resource::Beneficiary, Operation::Read) ==> r is Ok,
        r matches Ok((b, d)) ==> composite_read(role, id, *stored, presences@, allergies@, notes@, b, d),
{
    let ghost given_presences = presences@;
    let ghost given_notes = notes@;
    match authorize(role, Resource::Beneficiary, Operation::Read) {
        Ok(Variant::BeneficiaryDetails(p)) => {
            let b = stored.project(&detail_columns_of(p));
            let d = Details {
                id,
                presences: sort_presences(keep_presences(presences, id)),
                allergies: keep_allergies(allergies, id),
                notes: filter_notes(notes, p, id),
            };
            Ok((b, d))
        },
        Ok(_) => Err(AuthError::Forbidden),
        Err(e) => Err(e),
    }
}

/// Field-level projection, redacted side: what the `User` role receives
/// never holds an email, a phone, an income, or a note of a restricted type.
pub proof fn lemma_user_read_redacted(
    id: i32,
    stored: Beneficiary,
    presences: Seq<Presence>,
    allergies: Seq<Allergy>,
    notes: Seq<Note>,
    b: Beneficiary,
    d: Details,
)
    requires
        composite_read(Role::User, id, stored, presences, allergies, notes, b, d),
    ensures
        b.email@.len() == 0,
        b.phone@.len() == 0,
        b.income@.len() == 0,
        forall|i: int| 0 <= i < d.notes@.len() ==> (#[trigger] d.notes@[i]).kind == 0,
{
    lemma_basic_details_hide_contact();
    assert forall|i: int| 0 <= i < d.notes@.len() implies (#[trigger] d.notes@[i]).kind == 0 by {
        notes.lemma_filter_pred(|n: Note| n.beneficiary_id == id && note_visible(Projection::Basic, n.kind), i);
    }
}

/// Field-level projection, elevated side: what `Admin` or `Dev` receives
/// holds the stored email, phone and income, and every note of the
/// restricted type.
pub proof fn lemma_elevated_read_complete(
    role: Role,
    id: i32,
    stored: Beneficiary,
    presences: Seq<Presence>,
    allergies: Seq<Allergy>,
    notes: Seq<Note>,
    b: Beneficiary,
    d: Details,
)
    requires
        elevated(role),
        composite_read(role, id, stored, presences, allergies, notes, b, d),
    ensures
        b.email == stored.email,
        b.phone == stored.phone,
        b.income == stored.income,
        forall|i: int| 0 <= i < notes.len() && (#[trigger] notes[i]).kind == 1 && notes[i].beneficiary_id == id
            ==> d.notes@.contains(notes[i]),
{
    let cols = detail_columns(Projection::Extended);
    assert(cols[3] == crate::beneficiary::Column::Email);
    assert(cols[4] == crate::beneficiary::Column::Phone);
    assert(cols[20] == crate::beneficiary::Column::Income);
    assert forall|i: int| 0 <= i < notes.len() && (#[trigger] notes[i]).kind == 1 && notes[i].beneficiary_id == id
        implies d.notes@.contains(notes[i]) by {
        notes.lemma_filter_contains(|n: Note| n.beneficiary_id == id && note_visible(Projection::Extended, n.kind), i);
    }
}

/// The composite fetch of beneficiary `id` holds only rows of `id`: every
/// visit, allergy and note of its details names `id`, whatever rows the
/// reads returned.
pub proof fn lemma_composite_rows_belong(
    role: Role,
    id: i32,
    stored: Beneficiary,
    presences: Seq<Presence>,
    allergies: Seq<Allergy>,
    notes: Seq<Note>,
    b: Beneficiary,
    d: Details,
)
    requires
        composite_read(role, id, stored, presences, allergies, notes, b, d),
    ensures
        d.id == id,
        forall|i: int| 0 <= i < d.presences@.len() ==> (#[trigger] d.presences@[i]).beneficiary_id == id,
        forall|i: int| 0 <= i < d.allergies@.len() ==> (#[trigger] d.allergies@[i]).beneficiary_id == id,
        forall|i: int| 0 <= i < d.notes@.len() ==> (#[trigger] d.notes@[i]).beneficiary_id == id,
{
    let p = projection_of(role);
    assert forall|i: int| 0 <= i < d.presences@.len() implies (#[trigger] d.presences@[i]).beneficiary_id == id by {
        let x = d.presences@[i];
        let f = presences_of(presences, id);
        assert(d.presences@.contains(x));
        assert(d.presences@.to_multiset().count(x) > 0);
        assert(f.to_multiset().count(x) > 0);
        assert(f.contains(x));
        let k = choose|k: int| 0 <= k < f.len() && f[k] == x;
        presences.lemma_filter_pred(|y: Presence| y.beneficiary_id == id, k);
    }
    assert forall|i: int| 0 <= i < d.allergies@.len() implies (#[trigger] d.allergies@[i]).beneficiary_id == id by {
        allergies.lemma_filter_pred(|y: Allergy| y.beneficiary_id == id, i);
    }
    assert forall|i: int| 0 <= i < d.notes@.len() implies (#[trigger] d.notes@[i]).beneficiary_id == id by {
        notes.lemma_filter_pred(|n: Note| n.beneficiary_id == id && note_visible(p, n.kind), i);
    }
}

/// The encoding of the details of a beneficiary: the id, then the visits,
/// the allergies and the notes as lists.
pub open spec fn details_bytes(d: Details) -> Seq<u8> {
    varint(zigzag(d.id)) + list_bytes(presence_views(d.presences@))
        + list_bytes(allergy_views(d.allergies@)) + list_bytes(note_views(d.notes@))
}

/// The payload of a composite fetch: the record, then its details.
pub fn encode_full(b: &Beneficiary, d: &Details) -> (r: Vec<u8>)
    ensures
        r@ == values_bytes(b@) + details_bytes(*d),
{
    let mut out = b.encode();
    let ghost head = out@;
    encode_value(&Value::Int(d.id), &mut out);
    let mut p = Presence::encode_list(&d.presences);
    let mut a = Allergy::encode_list(&d.allergies);
    let mut n = Note::encode_list(&d.notes);
    let ghost (pv, av, nv) = (p@, a@, n@);
    out.append(&mut p);
    out.append(&mut a);
    out.append(&mut n);
    proof {
        assert(out@ =~= head + (varint(zigzag(d.id)) + pv + av + nv));
    }
    out
}

/// The composite fetch of one beneficiary for `role`, encoded: the record
/// projected to the role's columns, then its visits in ascending date order,
/// its allergies, and the notes that the role may read.
pub fn read_beneficiary(
    role: Role,
    id: i32,
    stored: &Beneficiary,
    presences: Vec<Presence>,
    allergies: Vec<Allergy>,
    notes: Vec<Note>,
) -> (r: Result<Vec<u8>, Failure>)
    ensures
        !allowed(role, Resource::Beneficiary, Operation::Read) ==> r == Err::<Vec<u8>, Failure>(Failure::Auth(AuthError::Forbidden)),
        allowed(role, Resource::Beneficiary, Operation::Read) ==> r is Ok,
        r matches Ok(x) ==> exists|b: Beneficiary, d: Details|
            composite_read(role, id, *stored, presences@, allergies@, notes@, b, d)
                && x@ == values_bytes(b@) + details_bytes(d),
{
    let ghost (pv, av, nv) = (presences@, allergies@, notes@);
    match compose_beneficiary(role, id, stored, presences, allergies, notes) {
        Ok((b, d)) => {
            let r = encode_full(&b, &d);
            proof {
                assert(composite_read(role, id, *stored, pv, av, nv, b, d));
            }
            Ok(r)
        },
        Err(e) => Err(Failure::Auth(e)),
    }
}

/// The notes of a beneficiary that projection `p` may read.
pub fn notes_statement(p: Projection, id: i32) -> (r: Statement)
    ensures
        r.sql@ == "SELECT BeneficiaryId, DATE_FORMAT(Date, '%Y-%m-%d %H:%i:%s') AS Date, Type, Note FROM BeneficiaryNotes WHERE BeneficiaryId = ? AND "@
            + notes_condition(p),
        r.params@ == seq![Value::Int(id)],
{
    let mut s = String::from_str("SELECT BeneficiaryId, DATE_FORMAT(Date, '%Y-%m-%d %H:%i:%s') AS Date, Type, Note FROM BeneficiaryNotes WHERE BeneficiaryId = ? AND ");
    s.append(notes_condition_text(p));
    Statement { sql: s, params: vec![Value::Int(id)] }
}

/// The condition on note types of each projection, as `note_visible` states it.
pub open spec fn notes_condition(p: Projection) -> Seq<char> {
    match p {
        Projection::Basic => "Type = 0"@,
        Projection::Extended => "(Type = 0 OR Type = 1)"@,
        Projection::Full => "Type != 1"@,
    }
}

fn notes_condition_text(p: Projection) -> (r: &'static str)
    ensures
        r@ == notes_condition(p),
{
    match p {
        Projection::Basic => "Type = 0",
        Projection::Extended => "(Type = 0 OR Type = 1)",
        Projection::Full => "Type != 1",
    }
}

/// The visits of a beneficiary.
pub fn presences_statement(id: i32) -> (r: Statement)
    ensures
        r.sql@ == "SELECT BeneficiaryId, DATE_FORMAT(PresenceDate, '%Y-%m-%d %H:%i:%s') AS Date FROM BeneficiaryPresences WHERE BeneficiaryId = ? ORDER BY PresenceDate ASC"@,
        r.params@ == seq![Value::Int(id)],
{
    Statement {
        sql: String::from_str("SELECT BeneficiaryId, DATE_FORMAT(PresenceDate, '%Y-%m-%d %H:%i:%s') AS Date FROM BeneficiaryPresences WHERE BeneficiaryId = ? ORDER BY PresenceDate ASC"),
        params: vec![Value::Int(id)],
    }
}

/// The allergies of a beneficiary.
pub fn allergies_statement(id: i32) -> (r: Statement)
    ensures
        r.sql@ == "SELECT BeneficiaryId, Allergy FROM BeneficiaryAllergies WHERE BeneficiaryId = ?"@,
        r.params@ == seq![Value::Int(id)],
{
    Statement {
        sql: String::from_str("SELECT BeneficiaryId, Allergy FROM BeneficiaryAllergies WHERE BeneficiaryId = ?"),
        params: vec![Value::Int(id)],
    }
}

impl Allergy {
    /// The insert of this allergy.
    pub fn insert_statement(&self) -> (r: Statement)
        ensures
            r.sql@ == "INSERT INTO BeneficiaryAllergies (BeneficiaryId, Allergy) VALUES (?, ?)"@,
            r.params@ == seq![Value::Int(self.beneficiary_id), Value::Text(self.allergy)],
    {
        Statement {
            sql: String::from_str("INSERT INTO BeneficiaryAllergies (BeneficiaryId, Allergy) VALUES (?, ?)"),
            params: vec![Value::Int(self.beneficiary_id), Value::Text(clone_text(&self.allergy))],
        }
    }

    /// The deletion of the allergies of the beneficiary that match this
    /// allergy as a pattern (`#` escapes).
    pub fn delete_statement(&self) -> (r: Statement)
        ensures
            r.sql@ == "DELETE FROM BeneficiaryAllergies WHERE BeneficiaryId = ? AND Allergy LIKE ? ESCAPE '#'"@,
            r.params@ == seq![Value::Int(self.beneficiary_id), Value::Text(self.allergy)],
    {
        Statement {
            sql: String::from_str("DELETE FROM BeneficiaryAllergies WHERE BeneficiaryId = ? AND Allergy LIKE ? ESCAPE '#'"),
            params: vec![Value::Int(self.beneficiary_id), Value::Text(clone_text(&self.allergy))],
        }
    }
}

impl Presence {
    /// The insert of this visit.
    pub fn insert_statement(&self) -> (r: Statement)
        ensures
            r.sql@ == "INSERT INTO BeneficiaryPresences (BeneficiaryId, PresenceDate) VALUES (?, ?)"@,
            r.params@ == seq![Value::Int(self.beneficiary_id), Value::Text(self.date)],
    {
        Statement {
            sql: String::from_str("INSERT INTO BeneficiaryPresences (BeneficiaryId, PresenceDate) VALUES (?, ?)"),
            params: vec![Value::Int(self.beneficiary_id), Value::Text(clone_text(&self.date))],
        }
    }

    /// The deletion of this visit.
    pub fn delete_statement(&self) -> (r: Statement)
        ensures
            r.sql@ == "DELETE FROM BeneficiaryPresences WHERE BeneficiaryId = ? AND PresenceDate = ?"@,
            r.params@ == seq![Value::Int(self.beneficiary_id), Value::Text(self.date)],
    {
        Statement {
            sql: String::from_str("DELETE FROM BeneficiaryPresences WHERE BeneficiaryId = ? AND PresenceDate = ?"),
            params: vec![Value::Int(self.beneficiary_id), Value::Text(clone_text(&self.date))],
        }
    }
}

impl Note {
    /// The insert of this note.
    pub fn create_statement(&self) -> (r: Statement)
        ensures
            r.sql@ == "INSERT INTO BeneficiaryNotes (BeneficiaryId, Date, Type, Note) VALUES (?, ?, ?, ?)"@,
            r.params@ == seq![Value::Int(self.beneficiary_id), Value::Text(self.date), Value::Tiny(self.kind), Value::Text(self.text)],
    {
        Statement {
            sql: String::from_str("INSERT INTO BeneficiaryNotes (BeneficiaryId, Date, Type, Note) VALUES (?, ?, ?, ?)"),
            params: vec![
                Value::Int(self.beneficiary_id),
                Value::Text(clone_text(&self.date)),
                Value::Tiny(self.kind),
                Value::Text(clone_text(&self.text)),
            ],
        }
    }

    /// The update of the text of the note with this beneficiary and date.
    pub fn update_statement(&self) -> (r: Statement)
        ensures
            r.sql@ == "UPDATE BeneficiaryNotes SET Note = ? WHERE BeneficiaryId = ? AND Date = ?"@,
            r.params@ == seq![Value::Text(self.text), Value::Int(self.beneficiary_id), Value::Text(self.date)],
    {
        Statement {
            sql: String::from_str("UPDATE BeneficiaryNotes SET Note = ? WHERE BeneficiaryId = ? AND Date = ?"),
            params: vec![Value::Text(clone_text(&self.text)), Value::Int(self.beneficiary_id), Value::Text(clone_text(&self.date))],
        }
    }

    /// The deletion of the note with this beneficiary and date.
    pub fn delete_statement(&self) -> (r: Statement)
        ensures
            r.sql@ == "DELETE FROM BeneficiaryNotes WHERE BeneficiaryId = ? AND Date = ?"@,
            r.params@ == seq![Value::Int(self.beneficiary_id), Value::Text(self.date)],
    {
        Statement {
            sql: String::from_str("DELETE FROM BeneficiaryNotes WHERE BeneficiaryId = ? AND Date = ?"),
            params: vec![Value::Int(self.beneficiary_id), Value::Text(clone_text(&self.date))],
        }
    }
}

impl Presence {
    /// Decodes a list of records that fills `bytes` exactly: the encoding of
    /// any list decodes to an equal list.
    pub fn decode_list(bytes: &Vec<u8>) -> (r: Option<Vec<Presence>>)
        ensures
            forall|xs: Seq<Presence>| bytes@ == #[trigger] list_bytes(presence_views(xs)) ==> r is Some
                && presence_views((r->0)@) == presence_views(xs),
    {
        let kinds = vec![Kind::Int, Kind::Text];
        proof {
            assert(kinds@ =~= presence_kinds());
            assert forall|xs: Seq<Presence>| bytes@ == #[trigger] list_bytes(presence_views(xs)) implies
                all_of_kinds(presence_views(xs), kinds@) by {
                assert forall|i: int| 0 <= i < xs.len() implies kinds_of(#[trigger] presence_views(xs)[i]) == kinds@ by {
                    assert(kinds_of(xs[i]@) =~= kinds@);
                }
            }
        }
        let recs = match decode_records(bytes, &kinds) {
            Some(recs) => recs,
            None => return None,
        };
        let mut out: Vec<Presence> = Vec::new();
        let mut i: usize = 0;
        while i < recs.len()
            invariant
                i <= recs@.len(),
                kinds@ == presence_kinds(),
                out@.len() == i,
                forall|j: int| 0 <= j < i ==> (#[trigger] out@[j])@ == scalars(recs@[j]@),
                forall|xs: Seq<Presence>| bytes@ == #[trigger] list_bytes(presence_views(xs)) ==> {
                    &&& recs@.len() == xs.len()
                    &&& forall|j: int| 0 <= j < xs.len() ==> scalars((#[trigger] recs@[j])@) == presence_views(xs)[j]
                },
            decreases recs@.len() - i,
        {
            match Presence::from_values(&recs[i]) {
                Some(x) => out.push(x),
                None => {
                    proof {
                        assert forall|xs: Seq<Presence>| bytes@ == #[trigger] list_bytes(presence_views(xs)) implies false by {
                            assert(scalars(recs@[i as int]@) == xs[i as int]@);
                            assert(kinds_of(xs[i as int]@) =~= presence_kinds());
                        }
                    }
                    return None;
                },
            }
            i = i + 1;
        }
        proof {
            assert forall|xs: Seq<Presence>| bytes@ == #[trigger] list_bytes(presence_views(xs)) implies
                presence_views(out@) == presence_views(xs) by {
                assert(presence_views(out@) =~= presence_views(xs));
            }
        }
        Some(out)
    }
}

impl Allergy {
    /// Decodes a list of records that fills `bytes` exactly: the encoding of
    /// any list decodes to an equal list.
    pub fn decode_list(bytes: &Vec<u8>) -> (r: Option<Vec<Allergy>>)
        ensures
            forall|xs: Seq<Allergy>| bytes@ == #[trigger] list_bytes(allergy_views(xs)) ==> r is Some
                && allergy_views((r->0)@) == allergy_views(xs),
    {
        let kinds = vec![Kind::Int, Kind::Text];
        proof {
            assert(kinds@ =~= allergy_kinds());
            assert forall|xs: Seq<Allergy>| bytes@ == #[trigger] list_bytes(allergy_views(xs)) implies
                all_of_kinds(allergy_views(xs), kinds@) by {
                assert forall|i: int| 0 <= i < xs.len() implies kinds_of(#[trigger] allergy_views(xs)[i]) == kinds@ by {
                    assert(kinds_of(xs[i]@) =~= kinds@);
                }
            }
        }
        let recs = match decode_records(bytes, &kinds) {
            Some(recs) => recs,
            None => return None,
        };
        let mut out: Vec<Allergy> = Vec::new();
        let mut i: usize = 0;
        while i < recs.len()
            invariant
                i <= recs@.len(),
                kinds@ == allergy_kinds(),
                out@.len() == i,
                forall|j: int| 0 <= j < i ==> (#[trigger] out@[j])@ == scalars(recs@[j]@),
                forall|xs: Seq<Allergy>| bytes@ == #[trigger] list_bytes(allergy_views(xs)) ==> {
                    &&& recs@.len() == xs.len()
                    &&& forall|j: int| 0 <= j < xs.len() ==> scalars((#[trigger] recs@[j])@) == allergy_views(xs)[j]
                },
            decreases recs@.len() - i,
        {
            match Allergy::from_values(&recs[i]) {
                Some(x) => out.push(x),
                None => {
                    proof {
                        assert forall|xs: Seq<Allergy>| bytes@ == #[trigger] list_bytes(allergy_views(xs)) implies false by {
                            assert(scalars(recs@[i as int]@) == xs[i as int]@);
                            assert(kinds_of(xs[i as int]@) =~= allergy_kinds());
                        }
                    }
                    return None;
                },
            }
            i = i + 1;
        }
        proof {
            assert forall|xs: Seq<Allergy>| bytes@ == #[trigger] list_bytes(allergy_views(xs)) implies
                allergy_views(out@) == allergy_views(xs) by {
                assert(allergy_views(out@) =~= allergy_views(xs));
            }
        }
        Some(out)
    }
}

impl Note {
    /// Decodes a list of records that fills `bytes` exactly: the encoding of
    /// any list decodes to an equal list.
    pub fn decode_list(bytes: &Vec<u8>) -> (r: Option<Vec<Note>>)
        ensures
            forall|xs: Seq<Note>| bytes@ == #[trigger] list_bytes(note_views(xs)) ==> r is Some
                && note_views((r->0)@) == note_views(xs),
    {
        let kinds = vec![Kind::Int, Kind::Text, Kind::Tiny, Kind::Text];
        proof {
            assert(kinds@ =~= note_kinds());
            assert forall|xs: Seq<Note>| bytes@ == #[trigger] list_bytes(note_views(xs)) implies
                all_of_kinds(note_views(xs), kinds@) by {
                assert forall|i: int| 0 <= i < xs.len() implies kinds_of(#[trigger] note_views(xs)[i]) == kinds@ by {
                    assert(kinds_of(xs[i]@) =~= kinds@);
                }
            }
        }
        let recs = match decode_records(bytes, &kinds) {
            Some(recs) => recs,
            None => return None,
        };
        let mut out: Vec<Note> = Vec::new();
        let mut i: usize = 0;
        while i < recs.len()
            invariant
                i <= recs@.len(),
                kinds@ == note_kinds(),
                out@.len() == i,
                forall|j: int| 0 <= j < i ==> (#[trigger] out@[j])@ == scalars(recs@[j]@),
                forall|xs: Seq<Note>| bytes@ == #[trigger] list_bytes(note_views(xs)) ==> {
                    &&& recs@.len() == xs.len()
                    &&& forall|j: int| 0 <= j < xs.len() ==> scalars((#[trigger] recs@[j])@) == note_views(xs)[j]
                },
            decreases recs@.len() - i,
        {
            match Note::from_values(&recs[i]) {
                Some(x) => out.push(x),
                None => {
                    proof {
                        assert forall|xs: Seq<Note>| bytes@ == #[trigger] list_bytes(note_views(xs)) implies false by {
                            assert(scalars(recs@[i as int]@) == xs[i as int]@);
                            assert(kinds_of(xs[i as int]@) =~= note_kinds());
                        }
                    }
                    return None;
                },
            }
            i = i + 1;
        }
        proof {
            assert forall|xs: Seq<Note>| bytes@ == #[trigger] list_bytes(note_views(xs)) implies
                note_views(out@) == note_views(xs) by {
                assert(note_views(out@) =~= note_views(xs));
            }
        }
        Some(out)
    }
}

impl Presence {
    /// Decodes a list of records at `at`: the encoding of any list, followed
    /// by anything, decodes to an equal list and the position after it.
    pub fn decode_list_at(bytes: &Vec<u8>, at: usize) -> (r: Option<(Vec<Presence>, usize)>)
        requires
            at <= bytes@.len(),
        ensures
            forall|xs: Seq<Presence>, rest: Seq<u8>| bytes@.skip(at as int) == #[trigger] (list_bytes(presence_views(xs)) + rest) ==> r is Some
                && presence_views((r->0).0@) == presence_views(xs) && (r->0).1 == at + list_bytes(presence_views(xs)).len(),
            r matches Some((_, end)) ==> at <= end <= bytes@.len(),
    {
        let kinds = vec![Kind::Int, Kind::Text];
        proof {
            assert(kinds@ =~= presence_kinds());
            assert forall|xs: Seq<Presence>, rest: Seq<u8>| bytes@.skip(at as int) == #[trigger] (list_bytes(presence_views(xs)) + rest) implies all_of_kinds(presence_views(xs), kinds@) by {
                assert forall|i: int| 0 <= i < xs.len() implies kinds_of(#[trigger] presence_views(xs)[i]) == kinds@ by {
                    assert(kinds_of(xs[i]@) =~= kinds@);
                }
            }
        }
        let (recs, end) = match decode_records_at(bytes, at, &kinds) {
            Some(x) => x,
            None => return None,
        };
        let mut out: Vec<Presence> = Vec::new();
        let mut i: usize = 0;
        while i < recs.len()
            invariant
                i <= recs@.len(),
                kinds@ == presence_kinds(),
                out@.len() == i,
                forall|j: int| 0 <= j < i ==> (#[trigger] out@[j])@ == scalars(recs@[j]@),
                forall|xs: Seq<Presence>, rest: Seq<u8>| bytes@.skip(at as int) == #[trigger] (list_bytes(presence_views(xs)) + rest) ==> {
                    &&& recs@.len() == xs.len()
                    &&& forall|j: int| 0 <= j < xs.len() ==> scalars((#[trigger] recs@[j])@) == presence_views(xs)[j]
                },
            decreases recs@.len() - i,
        {
            match Presence::from_values(&recs[i]) {
                Some(x) => out.push(x),
                None => {
                    proof {
                        assert forall|xs: Seq<Presence>, rest: Seq<u8>| bytes@.skip(at as int) == #[trigger] (list_bytes(presence_views(xs)) + rest) implies false by {
                            assert(scalars(recs@[i as int]@) == xs[i as int]@);
                            assert(kinds_of(xs[i as int]@) =~= presence_kinds());
                        }
                    }
                    return None;
                },
            }
            i = i + 1;
        }
        proof {
            assert forall|xs: Seq<Presence>, rest: Seq<u8>| bytes@.skip(at as int) == #[trigger] (list_bytes(presence_views(xs)) + rest) implies presence_views(out@) == presence_views(xs) by {
                assert(presence_views(out@) =~= presence_views(xs));
            }
        }
        Some((out, end))
    }
}

impl Allergy {
    /// Decodes a list of records at `at`: the encoding of any list, followed
    /// by anything, decodes to an equal list and the position after it.
    pub fn decode_list_at(bytes: &Vec<u8>, at: usize) -> (r: Option<(Vec<Allergy>, usize)>)
        requires
            at <= bytes@.len(),
        ensures
            forall|xs: Seq<Allergy>, rest: Seq<u8>| bytes@.skip(at as int) == #[trigger] (list_bytes(allergy_views(xs)) + rest) ==> r is Some
                && allergy_views((r->0).0@) == allergy_views(xs) && (r->0).1 == at + list_bytes(allergy_views(xs)).len(),
            r matches Some((_, end)) ==> at <= end <= bytes@.len(),
    {
        let kinds = vec![Kind::Int, Kind::Text];
        proof {
            assert(kinds@ =~= allergy_kinds());
            assert forall|xs: Seq<Allergy>, rest: Seq<u8>| bytes@.skip(at as int) == #[trigger] (list_bytes(allergy_views(xs)) + rest) implies all_of_kinds(allergy_views(xs), kinds@) by {
                assert forall|i: int| 0 <= i < xs.len() implies kinds_of(#[trigger] allergy_views(xs)[i]) == kinds@ by {
                    assert(kinds_of(xs[i]@) =~= kinds@);
                }
            }
        }
        let (recs, end) = match decode_records_at(bytes, at, &kinds) {
            Some(x) => x,
            None => return None,
        };
        let mut out: Vec<Allergy> = Vec::new();
        let mut i: usize = 0;
        while i < recs.len()
            invariant
                i <= recs@.len(),
                kinds@ == allergy_kinds(),
                out@.len() == i,
                forall|j: int| 0 <= j < i ==> (#[trigger] out@[j])@ == scalars(recs@[j]@),
                forall|xs: Seq<Allergy>, rest: Seq<u8>| bytes@.skip(at as int) == #[trigger] (list_bytes(allergy_views(xs)) + rest) ==> {
                    &&& recs@.len() == xs.len()
                    &&& forall|j: int| 0 <= j < xs.len() ==> scalars((#[trigger] recs@[j])@) == allergy_views(xs)[j]
                },
            decreases recs@.len() - i,
        {
            match Allergy::from_values(&recs[i]) {
                Some(x) => out.push(x),
                None => {
                    proof {
                        assert forall|xs: Seq<Allergy>, rest: Seq<u8>| bytes@.skip(at as int) == #[trigger] (list_bytes(allergy_views(xs)) + rest) implies false by {
                            assert(scalars(recs@[i as int]@) == xs[i as int]@);
                            assert(kinds_of(xs[i as int]@) =~= allergy_kinds());
                        }
                    }
                    return None;
                },
            }
            i = i + 1;
        }
        proof {
            assert forall|xs: Seq<Allergy>, rest: Seq<u8>| bytes@.skip(at as int) == #[trigger] (list_bytes(allergy_views(xs)) + rest) implies allergy_views(out@) == allergy_views(xs) by {
                assert(allergy_views(out@) =~= allergy_views(xs));
            }
        }
        Some((out, end))
    }
}

impl Note {
    /// Decodes a list of records at `at`: the encoding of any list, followed
    /// by anything, decodes to an equal list and the position after it.
    pub fn decode_list_at(bytes: &Vec<u8>, at: usize) -> (r: Option<(Vec<Note>, usize)>)
        requires
            at <= bytes@.len(),
        ensures
            forall|xs: Seq<Note>, rest: Seq<u8>| bytes@.skip(at as int) == #[trigger] (list_bytes(note_views(xs)) + rest) ==> r is Some
                && note_views((r->0).0@) == note_views(xs) && (r->0).1 == at + list_bytes(note_views(xs)).len(),
            r matches Some((_, end)) ==> at <= end <= bytes@.len(),
    {
        let kinds = vec![Kind::Int, Kind::Text, Kind::Tiny, Kind::Text];
        proof {
            assert(kinds@ =~= note_kinds());
            assert forall|xs: Seq<Note>, rest: Seq<u8>| bytes@.skip(at as int) == #[trigger] (list_bytes(note_views(xs)) + rest) implies all_of_kinds(note_views(xs), kinds@) by {
                assert forall|i: int| 0 <= i < xs.len() implies kinds_of(#[trigger] note_views(xs)[i]) == kinds@ by {
                    assert(kinds_of(xs[i]@) =~= kinds@);
                }
            }
        }
        let (recs, end) = match decode_records_at(bytes, at, &kinds) {
            Some(x) => x,
            None => return None,
        };
        let mut out: Vec<Note> = Vec::new();
        let mut i: usize = 0;
        while i < recs.len()
            invariant
                i <= recs@.len(),
                kinds@ == note_kinds(),
                out@.len() == i,
                forall|j: int| 0 <= j < i ==> (#[trigger] out@[j])@ == scalars(recs@[j]@),
                forall|xs: Seq<Note>, rest: Seq<u8>| bytes@.skip(at as int) == #[trigger] (list_bytes(note_views(xs)) + rest) ==> {
                    &&& recs@.len() == xs.len()
                    &&& forall|j: int| 0 <= j < xs.len() ==> scalars((#[trigger] recs@[j])@) == note_views(xs)[j]
                },
            decreases recs@.len() - i,
        {
            match Note::from_values(&recs[i]) {
                Some(x) => out.push(x),
                None => {
                    proof {
                        assert forall|xs: Seq<Note>, rest: Seq<u8>| bytes@.skip(at as int) == #[trigger] (list_bytes(note_views(xs)) + rest) implies false by {
                            assert(scalars(recs@[i as int]@) == xs[i as int]@);
                            assert(kinds_of(xs[i as int]@) =~= note_kinds());
                        }
                    }
                    return None;
                },
            }
            i = i + 1;
        }
        proof {
            assert forall|xs: Seq<Note>, rest: Seq<u8>| bytes@.skip(at as int) == #[trigger] (list_bytes(note_views(xs)) + rest) implies note_views(out@) == note_views(xs) by {
                assert(note_views(out@) =~= note_views(xs));
            }
        }
        Some((out, end))
    }
}

/// `x` holds the same details as `d`: the same id and equal rows.
pub open spec fn same_details(x: Details, d: Details) -> bool {
    &&& x.id == d.id
    &&& presence_views(x.presences@) == presence_views(d.presences@)
    &&& allergy_views(x.allergies@) == allergy_views(d.allergies@)
    &&& note_views(x.notes@) == note_views(d.notes@)
}

/// Decodes the payload of a composite fetch that fills `bytes` exactly:
/// the encoding of any record and details decodes to an equal pair.
pub fn decode_full(bytes: &Vec<u8>) -> (r: Option<(Beneficiary, Details)>)
    ensures
        forall|b: Beneficiary, d: Details| bytes@ == #[trigger] (values_bytes(b@) + details_bytes(d)) ==> r is Some
            && (r->0).0@ == b@ && same_details((r->0).1, d),
{
    let _len = bytes.len();
    proof {
        assert forall|b: Beneficiary, d: Details| bytes@ == #[trigger] (values_bytes(b@) + details_bytes(d)) implies
            bytes@.skip(0) == values_bytes(b@) + details_bytes(d) by {
            assert(bytes@.skip(0) =~= bytes@);
        }
    }
    let (b, p1) = match Beneficiary::decode_at(bytes, 0) {
        Some(x) => x,
        None => return None,
    };
    proof {
        assert forall|bb: Beneficiary, d: Details| bytes@ == #[trigger] (values_bytes(bb@) + details_bytes(d)) implies
            bytes@.skip(p1 as int) == value_bytes(Scalar::Int(d.id)) + (list_bytes(presence_views(d.presences@))
                + (list_bytes(allergy_views(d.allergies@)) + list_bytes(note_views(d.notes@)))) by {
            assert(bytes@.skip(0) == values_bytes(bb@) + details_bytes(d));
            let whole = values_bytes(bb@) + (value_bytes(Scalar::Int(d.id)) + (list_bytes(presence_views(d.presences@))
                + (list_bytes(allergy_views(d.allergies@)) + list_bytes(note_views(d.notes@)))));
            assert(values_bytes(bb@) + details_bytes(d) =~= whole);
            assert(whole.skip(values_bytes(bb@).len() as int) =~= value_bytes(Scalar::Int(d.id)) + (list_bytes(presence_views(d.presences@))
                + (list_bytes(allergy_views(d.allergies@)) + list_bytes(note_views(d.notes@)))));
        }
    }
    let (idv, p2) = match decode_value(bytes, p1, Kind::Int) {
        Some(x) => x,
        None => return None,
    };
    let id = match idv {
        Value::Int(x) => x,
        _ => return None,
    };
    proof {
        assert forall|bb: Beneficiary, d: Details| bytes@ == #[trigger] (values_bytes(bb@) + details_bytes(d)) implies
            id == d.id && bytes@.skip(p2 as int) == list_bytes(presence_views(d.presences@))
                + (list_bytes(allergy_views(d.allergies@)) + list_bytes(note_views(d.notes@))) by {
            let tail = list_bytes(presence_views(d.presences@)) + (list_bytes(allergy_views(d.allergies@)) + list_bytes(note_views(d.notes@)));
            assert(bytes@.skip(p1 as int) == value_bytes(Scalar::Int(d.id)) + tail);
            assert(bytes@.skip(p2 as int) =~= bytes@.skip(p1 as int).skip(p2 - p1));
            assert((value_bytes(Scalar::Int(d.id)) + tail).skip(value_bytes(Scalar::Int(d.id)).len() as int) =~= tail);
        }
    }
    let (ps, p3) = match Presence::decode_list_at(bytes, p2) {
        Some(x) => x,
        None => return None,
    };
    proof {
        assert forall|bb: Beneficiary, d: Details| bytes@ == #[trigger] (values_bytes(bb@) + details_bytes(d)) implies
            presence_views(ps@) == presence_views(d.presences@)
                && bytes@.skip(p3 as int) == list_bytes(allergy_views(d.allergies@)) + list_bytes(note_views(d.notes@)) by {
            let head = list_bytes(presence_views(d.presences@));
            let tail = list_bytes(allergy_views(d.allergies@)) + list_bytes(note_views(d.notes@));
            assert(bytes@.skip(p2 as int) == head + tail);
            assert(bytes@.skip(p3 as int) =~= bytes@.skip(p2 as int).skip(p3 - p2));
            assert((head + tail).skip(head.len() as int) =~= tail);
        }
    }
    let (als, p4) = match Allergy::decode_list_at(bytes, p3) {
        Some(x) => x,
        None => return None,
    };
    proof {
        assert forall|bb: Beneficiary, d: Details| bytes@ == #[trigger] (values_bytes(bb@) + details_bytes(d)) implies
            allergy_views(als@) == allergy_views(d.allergies@)
                && bytes@.skip(p4 as int) == list_bytes(note_views(d.notes@)) + Seq::<u8>::empty() by {
            let head = list_bytes(allergy_views(d.allergies@));
            let tail = list_bytes(note_views(d.notes@));
            assert(bytes@.skip(p3 as int) == head + tail);
            assert(bytes@.skip(p4 as int) =~= bytes@.skip(p3 as int).skip(p4 - p3));
            assert((head + tail).skip(head.len() as int) =~= tail + Seq::<u8>::empty());
        }
    }
    let (ns, p5) = match Note::decode_list_at(bytes, p4) {
        Some(x) => x,
        None => return None,
    };
    if p5 != bytes.len() {
        proof {
            assert forall|bb: Beneficiary, d: Details| bytes@ == #[trigger] (values_bytes(bb@) + details_bytes(d)) implies false by {
                assert(bytes@.skip(p4 as int) == list_bytes(note_views(d.notes@)) + Seq::<u8>::empty());
                assert(bytes@.skip(p4 as int).len() == bytes@.len() - p4);
            }
        }
        return None;
    }
    Some((b, Details { id, presences: ps, allergies: als, notes: ns }))
}

} // verus!
