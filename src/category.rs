//! Categories: flat records, the same for every role.
use vstd::prelude::*;
use crate::codec::{all_of_kinds, decode_records, decode_values, encode_value, encode_values, kinds_of, list_bytes, records_bytes, values_bytes, varint};
use crate::error::{Failure, StorageError};
use crate::sql::Statement;
use crate::value::{Kind, Scalar, Value, clone_text, kind_of, scalar_kind, scalars};

verus! {

/// A category. Fees hold the bit pattern of a 32-bit float; `used_by`
/// counts the beneficiaries in the category.
#[derive(Clone, Debug)]
pub struct Category {
    pub id: i32,
    pub name: String,
    pub monthly_fee: u32,
    pub weekly_fee: u32,
    pub used_by: u32,
}

/// Every category.
pub fn select_statement() -> (r: Statement)
    ensures
        r.sql@ == "SELECT Id, Category, MonthlyFee, WeeklyFee, UsedBy FROM Categories"@,
        r.params@.len() == 0,
{
    Statement { sql: String::from_str("SELECT Id, Category, MonthlyFee, WeeklyFee, UsedBy FROM Categories"), params: Vec::new() }
}

/// The reply to a read of the categories: their encoded list, or
/// `NotFound` when there is none.
pub fn categories_reply(rows: &Vec<Category>) -> (r: Result<Vec<u8>, Failure>)
    ensures
        rows@.len() == 0 ==> r == Err::<Vec<u8>, Failure>(Failure::Storage(StorageError::NotFound)),
        rows@.len() > 0 ==> r is Ok,
        r matches Ok(b) ==> b@ == list_bytes(category_views(rows@)),
{
    if rows.len() == 0 {
        return Err(Failure::Storage(StorageError::NotFound));
    }
    Ok(Category::encode_list(rows))
}

impl Category {
    /// The insert of this category; its id and usage count are left to storage.
    pub fn create_statement(&self) -> (r: Statement)
        ensures
            r.sql@ == "INSERT INTO Categories (Category, MonthlyFee, WeeklyFee) VALUES (?, ?, ?)"@,
            r.params@ == seq![Value::Text(self.name), Value::Single(self.monthly_fee), Value::Single(self.weekly_fee)],
    {
        Statement {
            sql: String::from_str("INSERT INTO Categories (Category, MonthlyFee, WeeklyFee) VALUES (?, ?, ?)"),
            params: vec![Value::Text(clone_text(&self.name)), Value::Single(self.monthly_fee), Value::Single(self.weekly_fee)],
        }
    }

    /// The update of the category with this id.
    pub fn update_statement(&self) -> (r: Statement)
        ensures
            r.sql@ == "UPDATE Categories SET Category = ?, MonthlyFee = ?, WeeklyFee = ? WHERE Id = ?"@,
            r.params@ == seq![Value::Text(self.name), Value::Single(self.monthly_fee), Value::Single(self.weekly_fee), Value::Int(self.id)],
    {
        Statement {
            sql: String::from_str("UPDATE Categories SET Category = ?, MonthlyFee = ?, WeeklyFee = ? WHERE Id = ?"),
            params: vec![
                Value::Text(clone_text(&self.name)),
                Value::Single(self.monthly_fee),
                Value::Single(self.weekly_fee),
                Value::Int(self.id),
            ],
        }
    }

    /// The deletion of the category with this id.
    pub fn delete_statement(&self) -> (r: Statement)
        ensures
            r.sql@ == "DELETE FROM Categories WHERE Id = ?"@,
            r.params@ == seq![Value::Int(self.id)],
    {
        Statement { sql: String::from_str("DELETE FROM Categories WHERE Id = ?"), params: vec![Value::Int(self.id)] }
    }
}

impl View for Category {
    type V = Seq<Scalar>;

    /// The values of the record, in declaration order.
    open spec fn view(&self) -> Seq<Scalar> {
        seq![
            Scalar::Int(self.id),
            Scalar::Text(self.name@),
            Scalar::Single(self.monthly_fee),
            Scalar::Single(self.weekly_fee),
            Scalar::Count(self.used_by),
        ]
    }
}

/// The values of each record of a list.
pub open spec fn category_views(xs: Seq<Category>) -> Seq<Seq<Scalar>> {
    xs.map_values(|x: Category| x@)
}

/// The schema of a category: the kind of each value, in order.
pub open spec fn category_kinds() -> Seq<Kind> {
    seq![Kind::Int, Kind::Text, Kind::Single, Kind::Single, Kind::Count]
}

impl Category {
    /// The values of the record, in declaration order.
    pub fn to_values(&self) -> (r: Vec<Value>)
        ensures
            scalars(r@) == self@,
    {
        let r = vec![
            Value::Int(self.id),
            Value::Text(clone_text(&self.name)),
            Value::Single(self.monthly_fee),
            Value::Single(self.weekly_fee),
            Value::Count(self.used_by),
        ];
        proof {
            assert(scalars(r@) =~= self@);
        }
        r
    }

    /// The record whose values `vs` holds; `None` when their kinds differ
    /// from the schema.
    pub fn from_values(vs: &Vec<Value>) -> (r: Option<Category>)
        ensures
            kinds_of(scalars(vs@)) == category_kinds() ==> r is Some,
            r matches Some(x) ==> x@ == scalars(vs@),
    {
        if vs.len() != 5 {
            proof {
                assert(kinds_of(scalars(vs@)).len() != category_kinds().len());
            }
            return None;
        }
        proof {
            if kinds_of(scalars(vs@)) == category_kinds() {
                assert forall|i: int| 0 <= i < 5 implies kind_of(#[trigger] vs@[i]) == category_kinds()[i] by {
                    assert(kinds_of(scalars(vs@))[i] == scalar_kind(vs@[i]@));
                }
            }
        }
        let id = match &vs[0] {
            Value::Int(x) => *x,
            _ => return None,
        };
        let name = match &vs[1] {
            Value::Text(s) => clone_text(s),
            _ => return None,
        };
        let monthly_fee = match &vs[2] {
            Value::Single(x) => *x,
            _ => return None,
        };
        let weekly_fee = match &vs[3] {
            Value::Single(x) => *x,
            _ => return None,
        };
        let used_by = match &vs[4] {
            Value::Count(x) => *x,
            _ => return None,
        };
        let r = Category { id, name, monthly_fee, weekly_fee, used_by };
        proof {
            assert(r@ =~= scalars(vs@));
        }
        Some(r)
    }

    /// The encoding of the record.
    pub fn encode(&self) -> (r: Vec<u8>)
        ensures
            r@ == values_bytes(self@),
    {
        encode_values(&self.to_values())
    }

    /// The encoding of a list of records: their count, then each record.
    pub fn encode_list(items: &Vec<Category>) -> (r: Vec<u8>)
        ensures
            r@ == list_bytes(category_views(items@)),
    {
        let mut out: Vec<u8> = Vec::new();
        encode_value(&Value::Size(items.len() as u64), &mut out);
        let ghost views = category_views(items@);
        let mut i: usize = 0;
        while i < items.len()
            invariant
                i <= items@.len(),
                views == category_views(items@),
                out@ == varint(items@.len() as nat) + records_bytes(views.take(i as int)),
            decreases items@.len() - i,
        {
            let mut b = items[i].encode();
            out.append(&mut b);
            proof {
                assert(views.take(i + 1).drop_last() =~= views.take(i as int));
                assert(views.take(i + 1).last() == items@[i as int]@);
            }
            i = i + 1;
        }
        proof {
            assert(views.take(items@.len() as int) =~= views);
        }
        out
    }

    /// Decodes a record that fills `bytes` exactly: the encoding of any
    /// record decodes to an equal record, and input with bytes left over
    /// after a record is refused.
    pub fn decode(bytes: &Vec<u8>) -> (r: Option<Category>)
        ensures
            forall|x: Category| bytes@ == #[trigger] values_bytes(x@) ==> r is Some && (r->0)@ == x@,
    {
        let kinds = vec![Kind::Int, Kind::Text, Kind::Single, Kind::Single, Kind::Count];
        proof {
            assert(kinds@ =~= category_kinds());
            assert forall|x: Category| bytes@ == #[trigger] values_bytes(x@) implies
                kinds_of(x@) == kinds@ && bytes@.skip(0) == values_bytes(x@) + Seq::<u8>::empty() by {
                assert(kinds_of(x@) =~= kinds@);
                assert(bytes@.skip(0) =~= values_bytes(x@) + Seq::<u8>::empty());
            }
        }
        match decode_values(bytes, 0, &kinds) {
            Some((vs, end)) => {
                if end != bytes.len() {
                    return None;
                }
                proof {
                    assert forall|x: Category| bytes@ == #[trigger] values_bytes(x@) implies
                        kinds_of(scalars(vs@)) == category_kinds() by {
                        assert(kinds_of(x@) =~= kinds@);
                    }
                }
                Category::from_values(&vs)
            },
            None => None,
        }
    }
}

impl Category {
    /// Decodes a list of records that fills `bytes` exactly: the encoding of
    /// any list decodes to an equal list.
    pub fn decode_list(bytes: &Vec<u8>) -> (r: Option<Vec<Category>>)
        ensures
            forall|xs: Seq<Category>| bytes@ == #[trigger] list_bytes(category_views(xs)) ==> r is Some
                && category_views((r->0)@) == category_views(xs),
    {
        let kinds = vec![Kind::Int, Kind::Text, Kind::Single, Kind::Single, Kind::Count];
        proof {
            assert(kinds@ =~= category_kinds());
            assert forall|xs: Seq<Category>| bytes@ == #[trigger] list_bytes(category_views(xs)) implies
                all_of_kinds(category_views(xs), kinds@) by {
                assert forall|i: int| 0 <= i < xs.len() implies kinds_of(#[trigger] category_views(xs)[i]) == kinds@ by {
                    assert(kinds_of(xs[i]@) =~= kinds@);
                }
            }
        }
        let recs = match decode_records(bytes, &kinds) {
            Some(recs) => recs,
            None => return None,
        };
        let mut out: Vec<Category> = Vec::new();
        let mut i: usize = 0;
        while i < recs.len()
            invariant
                i <= recs@.len(),
                kinds@ == category_kinds(),
                out@.len() == i,
                forall|j: int| 0 <= j < i ==> (#[trigger] out@[j])@ == scalars(recs@[j]@),
                forall|xs: Seq<Category>| bytes@ == #[trigger] list_bytes(category_views(xs)) ==> {
                    &&& recs@.len() == xs.len()
                    &&& forall|j: int| 0 <= j < xs.len() ==> scalars((#[trigger] recs@[j])@) == category_views(xs)[j]
                },
            decreases recs@.len() - i,
        {
            match Category::from_values(&recs[i]) {
                Some(x) => out.push(x),
                None => {
                    proof {
                        assert forall|xs: Seq<Category>| bytes@ == #[trigger] list_bytes(category_views(xs)) implies false by {
                            assert(scalars(recs@[i as int]@) == xs[i as int]@);
                            assert(kinds_of(xs[i as int]@) =~= category_kinds());
                        }
                    }
                    return None;
                },
            }
            i = i + 1;
        }
        proof {
            assert forall|xs: Seq<Category>| bytes@ == #[trigger] list_bytes(category_views(xs)) implies
                category_views(out@) == category_views(xs) by {
                assert(category_views(out@) =~= category_views(xs));
            }
        }
        Some(out)
    }
}

} // verus!
