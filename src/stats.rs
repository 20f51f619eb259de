//! The statistics bundle: eleven time series of counts, read-only, for the
//! elevated roles.
use vstd::prelude::*;
use crate::codec::{all_of_kinds, decode_records_at, encode_value, encode_values, kinds_of, list_bytes, records_bytes, values_bytes, varint};
use crate::error::{AuthError, Failure};
use crate::policy::{Operation, Resource, allowed, authorize};
use crate::role::Role;
use crate::sql::Statement;
use crate::value::{Kind, Scalar, Value, clone_text, kind_of, scalar_kind, scalars};

verus! {

/// One of the eleven series, in the order of the bundle.
#[derive(Clone, Copy, Debug, PartialEq, Eq, Structural)]
pub enum Series {
    Presence,
    Age,
    City,
    Employment,
    FamilySituation,
    Income,
    Kid,
    Language,
    Origin,
    Sexe,
    Study,
}

/// The series of the bundle, in order.
pub open spec fn bundle() -> Seq<Series> {
    seq![Series::Presence, Series::Age, Series::City, Series::Employment, Series::FamilySituation, Series::Income, Series::Kid, Series::Language, Series::Origin, Series::Sexe, Series::Study]
}

/// The number of counts in each row of a series.
pub open spec fn width(s: Series) -> nat {
    match s {
        Series::Presence => 3,
        Series::Age => 7,
        Series::City => 6,
        Series::Employment => 2,
        Series::FamilySituation => 6,
        Series::Income => 4,
        Series::Kid => 5,
        Series::Language => 6,
        Series::Origin => 7,
        Series::Sexe => 3,
        Series::Study => 6,
    }
}

/// The query of a series, oldest row first.
pub open spec fn series_sql(s: Series) -> Seq<char> {
    match s {
        Series::Presence => "SELECT DATE_FORMAT(Date, '%Y-%m-%d') AS Date, Total, Active, Visits FROM Presence ORDER BY Date ASC"@,
        Series::Age => "SELECT DATE_FORMAT(Date, '%Y-%m-%d') AS Date, Age_0_19, Age_20_29, Age_30_39, Age_40_49, Age_50_59, Age_60_69, Age_70_Plus FROM Age ORDER BY Date ASC"@,
        Series::City => "SELECT DATE_FORMAT(Date, '%Y-%m-%d') AS Date, Carignan, Chambly, Marieville, Richelieu, StMathias, Other FROM City ORDER BY Date ASC"@,
        Series::Employment => "SELECT DATE_FORMAT(Date, '%Y-%m-%d') AS Date, Unemployed, Employed FROM Employment ORDER BY Date ASC"@,
        Series::FamilySituation => "SELECT DATE_FORMAT(Date, '%Y-%m-%d') AS Date, Single, Couple, CoupleKids, Recomposed, SingleParent, Other FROM FamilySituation ORDER BY Date ASC"@,
        Series::Income => "SELECT DATE_FORMAT(Date, '%Y-%m-%d') AS Date, NoIncome, Income_1_14999, Income_15000_29999, Income_30000_More FROM Income ORDER BY Date ASC"@,
        Series::Kid => "SELECT DATE_FORMAT(Date, '%Y-%m-%d') AS Date, NoKids, OneKid, TwoKids, ThreeToFourKids, FivePlusKids FROM Kid ORDER BY Date ASC"@,
        Series::Language => "SELECT DATE_FORMAT(Date, '%Y-%m-%d') AS Date, French, English, Spanish, Arabic, Mandarin, Other FROM Language ORDER BY Date ASC"@,
        Series::Origin => "SELECT DATE_FORMAT(Date, '%Y-%m-%d') AS Date, NorthAmerican, SouthAmerican, CentralAmerican, Asian, African, European, Other FROM Origin ORDER BY Date ASC"@,
        Series::Sexe => "SELECT DATE_FORMAT(Date, '%Y-%m-%d') AS Date, Male, Female, Other FROM Sexe ORDER BY Date ASC"@,
        Series::Study => "SELECT DATE_FORMAT(Date, '%Y-%m-%d') AS Date, NoStudy, PrimarySchool, HighSchool, College, University, Other FROM Study ORDER BY Date ASC"@,
    }
}

/// The series of the bundle, in order.
pub fn bundle_series() -> (r: Vec<Series>)
    ensures
        r@ == bundle(),
{
    vec![Series::Presence, Series::Age, Series::City, Series::Employment, Series::FamilySituation, Series::Income, Series::Kid, Series::Language, Series::Origin, Series::Sexe, Series::Study]
}

/// The number of counts in each row of a series.
pub fn series_width(s: Series) -> (r: usize)
    ensures
        r == width(s),
{
    match s {
        Series::Presence => 3,
        Series::Age => 7,
        Series::City => 6,
        Series::Employment => 2,
        Series::FamilySituation => 6,
        Series::Income => 4,
        Series::Kid => 5,
        Series::Language => 6,
        Series::Origin => 7,
        Series::Sexe => 3,
        Series::Study => 6,
    }
}

/// The query of a series.
pub fn series_statement(s: Series) -> (r: Statement)
    ensures
        r.sql@ == series_sql(s),
        r.params@.len() == 0,
{
    let text = match s {
        Series::Presence => "SELECT DATE_FORMAT(Date, '%Y-%m-%d') AS Date, Total, Active, Visits FROM Presence ORDER BY Date ASC",
        Series::Age => "SELECT DATE_FORMAT(Date, '%Y-%m-%d') AS Date, Age_0_19, Age_20_29, Age_30_39, Age_40_49, Age_50_59, Age_60_69, Age_70_Plus FROM Age ORDER BY Date ASC",
        Series::City => "SELECT DATE_FORMAT(Date, '%Y-%m-%d') AS Date, Carignan, Chambly, Marieville, Richelieu, StMathias, Other FROM City ORDER BY Date ASC",
        Series::Employment => "SELECT DATE_FORMAT(Date, '%Y-%m-%d') AS Date, Unemployed, Employed FROM Employment ORDER BY Date ASC",
        Series::FamilySituation => "SELECT DATE_FORMAT(Date, '%Y-%m-%d') AS Date, Single, Couple, CoupleKids, Recomposed, SingleParent, Other FROM FamilySituation ORDER BY Date ASC",
        Series::Income => "SELECT DATE_FORMAT(Date, '%Y-%m-%d') AS Date, NoIncome, Income_1_14999, Income_15000_29999, Income_30000_More FROM Income ORDER BY Date ASC",
        Series::Kid => "SELECT DATE_FORMAT(Date, '%Y-%m-%d') AS Date, NoKids, OneKid, TwoKids, ThreeToFourKids, FivePlusKids FROM Kid ORDER BY Date ASC",
        Series::Language => "SELECT DATE_FORMAT(Date, '%Y-%m-%d') AS Date, French, English, Spanish, Arabic, Mandarin, Other FROM Language ORDER BY Date ASC",
        Series::Origin => "SELECT DATE_FORMAT(Date, '%Y-%m-%d') AS Date, NorthAmerican, SouthAmerican, CentralAmerican, Asian, African, European, Other FROM Origin ORDER BY Date ASC",
        Series::Sexe => "SELECT DATE_FORMAT(Date, '%Y-%m-%d') AS Date, Male, Female, Other FROM Sexe ORDER BY Date ASC",
        Series::Study => "SELECT DATE_FORMAT(Date, '%Y-%m-%d') AS Date, NoStudy, PrimarySchool, HighSchool, College, University, Other FROM Study ORDER BY Date ASC",
    };
    Statement { sql: String::from_str(text), params: Vec::new() }
}

/// One row of a series: a date and its counts.
#[derive(Clone, Debug)]
pub struct SeriesRow {
    pub date: String,
    pub counts: Vec<u32>,
}

impl View for SeriesRow {
    type V = Seq<Scalar>;

    /// The date, then each count.
    open spec fn view(&self) -> Seq<Scalar> {
        seq![Scalar::Text(self.date@)] + self.counts@.map_values(|c: u32| Scalar::Count(c))
    }
}

/// The rows of a series as records.
pub open spec fn rows_view(rows: Seq<SeriesRow>) -> Seq<Seq<Scalar>> {
    rows.map_values(|x: SeriesRow| x@)
}

/// Each series has as many series as the bundle, and each row as many
/// counts as its series.
pub open spec fn well_shaped(data: Seq<Vec<SeriesRow>>) -> bool {
    &&& data.len() == bundle().len()
    &&& forall|i: int, j: int| 0 <= i < data.len() && 0 <= j < data[i]@.len()
        ==> (#[trigger] data[i]@[j]).counts@.len() == width(bundle()[i])
}

/// The encoding of the bundle: each series as a list of rows, in order.
pub open spec fn bundle_bytes(data: Seq<Vec<SeriesRow>>) -> Seq<u8>
    decreases data.len(),
{
    if data.len() == 0 {
        Seq::empty()
    } else {
        bundle_bytes(data.drop_last()) + list_bytes(rows_view(data.last()@))
    }
}

impl SeriesRow {
    /// The values of the row: the date, then each count.
    pub fn to_values(&self) -> (r: Vec<Value>)
        ensures
            scalars(r@) == self@,
    {
        let mut r: Vec<Value> = vec![Value::Text(clone_text(&self.date))];
        let mut i: usize = 0;
        while i < self.counts.len()
            invariant
                i <= self.counts@.len(),
                scalars(r@) == seq![Scalar::Text(self.date@)] + self.counts@.take(i as int).map_values(|c: u32| Scalar::Count(c)),
            decreases self.counts@.len() - i,
        {
            let ghost before = r@;
            r.push(Value::Count(self.counts[i]));
            proof {
                assert(scalars(r@) =~= scalars(before).push(Scalar::Count(self.counts@[i as int])));
                assert(self.counts@.take(i + 1) =~= self.counts@.take(i as int).push(self.counts@[i as int]));
                assert(self.counts@.take(i + 1).map_values(|c: u32| Scalar::Count(c)) =~= self.counts@.take(i as int).map_values(
                    |c: u32| Scalar::Count(c),
                ).push(Scalar::Count(self.counts@[i as int])));
                assert(scalars(r@) =~= seq![Scalar::Text(self.date@)] + self.counts@.take(i + 1).map_values(|c: u32| Scalar::Count(c)));
            }
            i = i + 1;
        }
        proof {
            assert(self.counts@.take(self.counts@.len() as int) =~= self.counts@);
        }
        r
    }
}

/// Appends the list encoding of `rows`.
fn encode_rows(rows: &Vec<SeriesRow>, out: &mut Vec<u8>)
    ensures
        final(out)@ == old(out)@ + list_bytes(rows_view(rows@)),
{
    let ghost start = out@;
    encode_value(&Value::Size(rows.len() as u64), out);
    let ghost views = rows_view(rows@);
    let mut i: usize = 0;
    while i < rows.len()
        invariant
            i <= rows@.len(),
            views == rows_view(rows@),
            out@ == start + varint(rows@.len() as nat) + records_bytes(views.take(i as int)),
        decreases rows@.len() - i,
    {
        let mut b = encode_values(&rows[i].to_values());
        out.append(&mut b);
        proof {
            assert(views.take(i + 1).drop_last() =~= views.take(i as int));
            assert(views.take(i + 1).last() == rows@[i as int]@);
        }
        i = i + 1;
    }
    proof {
        assert(views.take(rows@.len() as int) =~= views);
        assert(out@ =~= start + list_bytes(views));
    }
}

/// The reply to a statistics read by `role`, from the rows of each series
/// of the bundle in order. Roles other than `Admin` and `Dev` are refused;
/// data whose shape does not match the bundle is an internal error.
pub fn stats_reply(role: Role, data: &Vec<Vec<SeriesRow>>) -> (r: Result<Vec<u8>, Failure>)
    ensures
        !allowed(role, Resource::Stats, Operation::Read) ==> r == Err::<Vec<u8>, Failure>(Failure::Auth(AuthError::Forbidden)),
        allowed(role, Resource::Stats, Operation::Read) && !well_shaped(data@) ==> r == Err::<Vec<u8>, Failure>(Failure::Internal),
        allowed(role, Resource::Stats, Operation::Read) && well_shaped(data@) ==> r is Ok,
        r matches Ok(b) ==> b@ == bundle_bytes(data@),
{
    match authorize(role, Resource::Stats, Operation::Read) {
        Ok(_) => {},
        Err(e) => return Err(Failure::Auth(e)),
    }
    let order = bundle_series();
    if data.len() != order.len() {
        return Err(Failure::Internal);
    }
    let mut out: Vec<u8> = Vec::new();
    let mut i: usize = 0;
    while i < data.len()
        invariant
            i <= data@.len(),
            order@ == bundle(),
            allowed(role, Resource::Stats, Operation::Read),
            data@.len() == bundle().len(),
            out@ == bundle_bytes(data@.take(i as int)),
            forall|a: int, j: int| 0 <= a < i && 0 <= j < data@[a]@.len()
                ==> (#[trigger] data@[a]@[j]).counts@.len() == width(bundle()[a]),
        decreases data@.len() - i,
    {
        let rows = &data[i];
        let w = series_width(order[i]);
        let mut j: usize = 0;
        while j < rows.len()
            invariant
                j <= rows@.len(),
                i < data@.len(),
                rows == data@[i as int],
                allowed(role, Resource::Stats, Operation::Read),
                w == width(bundle()[i as int]),
                forall|k: int| 0 <= k < j ==> (#[trigger] rows@[k]).counts@.len() == w,
            decreases rows@.len() - j,
        {
            if rows[j].counts.len() != w {
                proof {
                    assert(rows@[j as int] == data@[i as int]@[j as int]);
                    assert(data@[i as int]@[j as int].counts@.len() != width(bundle()[i as int]));
                    assert(!well_shaped(data@)) by {
                        if well_shaped(data@) {
                            assert(0 <= j < data@[i as int]@.len());
                            assert(data@[i as int]@[j as int].counts@.len() == width(bundle()[i as int]));
                        }
                    }
                }
                return Err(Failure::Internal);
            }
            j = j + 1;
        }
        encode_rows(rows, &mut out);
        proof {
            assert(data@.take(i + 1).drop_last() =~= data@.take(i as int));
            assert(data@.take(i + 1).last() == data@[i as int]);
        }
        i = i + 1;
    }
    proof {
        assert(data@.take(data@.len() as int) =~= data@);
    }
    Ok(out)
}

/// The kinds of a row of a series of `w` counts: the date, then the counts.
pub open spec fn row_kinds(w: nat) -> Seq<Kind> {
    seq![Kind::Text] + Seq::new(w, |i: int| Kind::Count)
}

fn row_kinds_of(w: usize) -> (r: Vec<Kind>)
    ensures
        r@ == row_kinds(w as nat),
{
    let mut r: Vec<Kind> = vec![Kind::Text];
    let mut i: usize = 0;
    while i < w
        invariant
            i <= w,
            r@ == seq![Kind::Text] + Seq::new(i as nat, |k: int| Kind::Count),
        decreases w - i,
    {
        r.push(Kind::Count);
        i = i + 1;
        proof {
            assert(r@ =~= seq![Kind::Text] + Seq::new(i as nat, |k: int| Kind::Count));
        }
    }
    r
}

proof fn lemma_row_kinds(x: SeriesRow)
    ensures
        kinds_of(x@) == row_kinds(x.counts@.len()),
{
    assert(kinds_of(x@) =~= row_kinds(x.counts@.len()));
}

proof fn lemma_bundle_bytes_append(a: Seq<Vec<SeriesRow>>, b: Seq<Vec<SeriesRow>>)
    ensures
        bundle_bytes(a + b) == bundle_bytes(a) + bundle_bytes(b),
    decreases b.len(),
{
    if b.len() == 0 {
        assert(a + b =~= a);
        assert(bundle_bytes(b) =~= Seq::<u8>::empty());
        assert(bundle_bytes(a) + bundle_bytes(b) =~= bundle_bytes(a));
    } else {
        lemma_bundle_bytes_append(a, b.drop_last());
        assert((a + b).drop_last() =~= a + b.drop_last());
        assert((a + b).last() == b.last());
        assert(bundle_bytes(a + b) =~= bundle_bytes(a) + bundle_bytes(b));
    }
}

impl SeriesRow {
    /// The row whose values `vs` holds; `None` when their kinds are not a
    /// date followed by `w` counts.
    pub fn from_values(vs: &Vec<Value>, w: usize) -> (r: Option<SeriesRow>)
        ensures
            kinds_of(scalars(vs@)) == row_kinds(w as nat) ==> r is Some,
            r matches Some(x) ==> x@ == scalars(vs@) && x.counts@.len() == w,
    {
        if vs.len() == 0 || vs.len() - 1 != w {
            proof {
                assert(kinds_of(scalars(vs@)).len() != row_kinds(w as nat).len());
            }
            return None;
        }
        proof {
            if kinds_of(scalars(vs@)) == row_kinds(w as nat) {
                assert forall|i: int| 0 <= i < vs@.len() implies kind_of(#[trigger] vs@[i]) == row_kinds(w as nat)[i] by {
                    assert(kinds_of(scalars(vs@))[i] == scalar_kind(vs@[i]@));
                }
            }
        }
        let date = match &vs[0] {
            Value::Text(s) => clone_text(s),
            _ => return None,
        };
        let mut counts: Vec<u32> = Vec::new();
        let mut i: usize = 1;
        while i < vs.len()
            invariant
                1 <= i <= vs@.len(),
                vs@.len() == w + 1,
                counts@.len() == i - 1,
                forall|j: int| 0 <= j < i - 1 ==> Scalar::Count(#[trigger] counts@[j]) == vs@[j + 1]@,
                kinds_of(scalars(vs@)) == row_kinds(w as nat) ==> forall|k: int| 0 <= k < vs@.len() ==> kind_of(#[trigger] vs@[k]) == row_kinds(w as nat)[k],
            decreases vs@.len() - i,
        {
            match &vs[i] {
                Value::Count(c) => counts.push(*c),
                _ => return None,
            }
            i = i + 1;
        }
        let r = SeriesRow { date, counts };
        proof {
            assert(r@ =~= scalars(vs@));
        }
        Some(r)
    }
}

/// Decodes a statistics bundle that fills `bytes` exactly: the encoding of
/// any well-shaped bundle decodes to an equal one.
pub fn decode_stats(bytes: &Vec<u8>) -> (r: Option<Vec<Vec<SeriesRow>>>)
    ensures
        forall|data: Seq<Vec<SeriesRow>>| well_shaped(data) && bytes@ == #[trigger] bundle_bytes(data) ==> r is Some
            && (r->0)@.len() == data.len()
            && forall|i: int| 0 <= i < data.len() ==> rows_view((#[trigger] (r->0)@[i])@) == rows_view(data[i]@),
{
    let order = bundle_series();
    let _len = bytes.len();
    let mut out: Vec<Vec<SeriesRow>> = Vec::new();
    let mut pos: usize = 0;
    let mut k: usize = 0;
    while k < order.len()
        invariant
            order@ == bundle(),
            k <= order@.len(),
            pos <= bytes@.len(),
            out@.len() == k,
            forall|data: Seq<Vec<SeriesRow>>| well_shaped(data) && bytes@ == #[trigger] bundle_bytes(data) ==> {
                &&& pos == bundle_bytes(data.take(k as int)).len()
                &&& forall|i: int| 0 <= i < k ==> rows_view((#[trigger] out@[i])@) == rows_view(data[i]@)
            },
        decreases order@.len() - k,
    {
        let w = series_width(order[k]);
        let kinds = row_kinds_of(w);
        proof {
            assert forall|data: Seq<Vec<SeriesRow>>| well_shaped(data) && bytes@ == #[trigger] bundle_bytes(data) implies
                all_of_kinds(rows_view(data[k as int]@), kinds@)
                && bytes@.skip(pos as int) == list_bytes(rows_view(data[k as int]@)) + bundle_bytes(data.skip(k + 1)) by {
                let head = data.take(k as int);
                let one = seq![data[k as int]];
                let tail = data.skip(k + 1);
                assert(data =~= head + (one + tail));
                lemma_bundle_bytes_append(head, one + tail);
                lemma_bundle_bytes_append(one, tail);
                assert(bundle_bytes(one) =~= list_bytes(rows_view(data[k as int]@))) by {
                    assert(one.drop_last() =~= Seq::<Vec<SeriesRow>>::empty());
                    assert(bundle_bytes(Seq::<Vec<SeriesRow>>::empty()) =~= Seq::<u8>::empty());
                    assert(bundle_bytes(one) == bundle_bytes(one.drop_last()) + list_bytes(rows_view(one.last()@)));
                }
                assert(bytes@.skip(pos as int) =~= (bundle_bytes(head) + (list_bytes(rows_view(data[k as int]@)) + bundle_bytes(tail))).skip(bundle_bytes(head).len() as int));
                assert forall|j: int| 0 <= j < rows_view(data[k as int]@).len() implies kinds_of(#[trigger] rows_view(data[k as int]@)[j]) == kinds@ by {
                    let x = data[k as int]@[j];
                    lemma_row_kinds(x);
                    assert(x.counts@.len() == width(bundle()[k as int]));
                }
            }
        }
        let (recs, next) = match decode_records_at(bytes, pos, &kinds) {
            Some(x) => x,
            None => {
                proof {
                    assert forall|data: Seq<Vec<SeriesRow>>| well_shaped(data) && bytes@ == #[trigger] bundle_bytes(data) implies false by {
                        assert(bytes@.skip(pos as int) == list_bytes(rows_view(data[k as int]@)) + bundle_bytes(data.skip(k + 1)));
                    }
                }
                return None;
            },
        };
        proof {
            assert forall|data: Seq<Vec<SeriesRow>>| well_shaped(data) && bytes@ == #[trigger] bundle_bytes(data) implies {
                &&& recs@.len() == rows_view(data[k as int]@).len()
                &&& next == pos + list_bytes(rows_view(data[k as int]@)).len()
                &&& forall|j: int| 0 <= j < recs@.len() ==> scalars((#[trigger] recs@[j])@) == rows_view(data[k as int]@)[j]
            } by {
                assert(bytes@.skip(pos as int) == list_bytes(rows_view(data[k as int]@)) + bundle_bytes(data.skip(k + 1)));
            }
        }
        let mut rows: Vec<SeriesRow> = Vec::new();
        let mut j: usize = 0;
        while j < recs.len()
            invariant
                j <= recs@.len(),
                rows@.len() == j,
                kinds@ == row_kinds(w as nat),
                forall|a: int| 0 <= a < j ==> (#[trigger] rows@[a])@ == scalars(recs@[a]@),
                forall|data: Seq<Vec<SeriesRow>>| well_shaped(data) && bytes@ == #[trigger] bundle_bytes(data) ==> {
                    &&& recs@.len() == rows_view(data[k as int]@).len()
                    &&& forall|a: int| 0 <= a < recs@.len() ==> scalars((#[trigger] recs@[a])@) == rows_view(data[k as int]@)[a]
                    &&& forall|a: int| 0 <= a < rows_view(data[k as int]@).len() ==> kinds_of(#[trigger] rows_view(data[k as int]@)[a]) == kinds@
                },
            decreases recs@.len() - j,
        {
            match SeriesRow::from_values(&recs[j], w) {
                Some(x) => rows.push(x),
                None => {
                    proof {
                        assert forall|data: Seq<Vec<SeriesRow>>| well_shaped(data) && bytes@ == #[trigger] bundle_bytes(data) implies false by {
                            assert(scalars(recs@[j as int]@) == rows_view(data[k as int]@)[j as int]);
                        }
                    }
                    return None;
                },
            }
            j = j + 1;
        }
        let ghost before = out@;
        out.push(rows);
        proof {
            assert forall|data: Seq<Vec<SeriesRow>>| well_shaped(data) && bytes@ == #[trigger] bundle_bytes(data) implies {
                &&& next == bundle_bytes(data.take(k + 1)).len()
                &&& forall|i: int| 0 <= i < k + 1 ==> rows_view((#[trigger] out@[i])@) == rows_view(data[i]@)
            } by {
                assert(data.take(k + 1).drop_last() =~= data.take(k as int));
                assert(data.take(k + 1).last() == data[k as int]);
                assert(rows_view(out@[k as int]@) =~= rows_view(data[k as int]@));
                assert forall|i: int| 0 <= i < k + 1 implies rows_view((#[trigger] out@[i])@) == rows_view(data[i]@) by {
                    if i < k {
                        assert(out@[i] == before[i]);
                    }
                }
            }
        }
        pos = next;
        k = k + 1;
    }
    if pos != bytes.len() {
        proof {
            assert forall|data: Seq<Vec<SeriesRow>>| well_shaped(data) && bytes@ == #[trigger] bundle_bytes(data) implies false by {
                assert(data.take(data.len() as int) =~= data);
            }
        }
        return None;
    }
    Some(out)
}

} // verus!
