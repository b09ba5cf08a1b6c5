//! Datasets of observations imported from tabular text.
//!
//! The header line names the variables; every following record is one
//! observation: an id and one value per variable. The tabular text itself is
//! read through the `csv` crate; everything after that call is verified.

use vstd::prelude::*;
use crate::ids::is_valid_id;
use crate::table::{Table, lemma_insert_props, tbl_contains, tbl_get, tbl_insert, tbl_sorted};
use crate::text::str_eq;

verus! {

/// One observed value of one variable.
#[derive(Clone, Copy, Debug, PartialEq, Eq, Structural)]
pub enum VarValue {
    True,
    False,
    Any,
}

/// Mirror of `VarValue::from_str`: `1`, `0`, or `*`.
pub open spec fn spec_parse_var_value(s: Seq<char>) -> Option<VarValue> {
    if s == "1"@ {
        Some(VarValue::True)
    } else if s == "0"@ {
        Some(VarValue::False)
    } else if s == "*"@ {
        Some(VarValue::Any)
    } else {
        None
    }
}

impl VarValue {
    /// Read one value from its text form.
    pub fn from_str(s: &str) -> (r: Result<VarValue, String>)
        ensures
            match r {
                Ok(v) => spec_parse_var_value(s@) == Some(v),
                Err(_) => spec_parse_var_value(s@) is None,
            },
    {
        if str_eq(s, "1") {
            Ok(VarValue::True)
        } else if str_eq(s, "0") {
            Ok(VarValue::False)
        } else if str_eq(s, "*") {
            Ok(VarValue::Any)
        } else {
            Err(String::from_str("unknown observation value"))
        }
    }
}

/// One observation: an id and one value per dataset variable.
#[derive(Clone, Debug, PartialEq, Eq)]
pub struct Observation {
    pub id: String,
    pub values: Vec<VarValue>,
}

impl View for Observation {
    type V = (Seq<char>, Seq<VarValue>);

    open spec fn view(&self) -> (Seq<char>, Seq<VarValue>) {
        (self.id@, self.values@)
    }
}

impl DeepView for Observation {
    type V = (Seq<char>, Seq<VarValue>);

    open spec fn deep_view(&self) -> (Seq<char>, Seq<VarValue>) {
        self.view()
    }
}

impl Observation {
    /// Create an observation; the id must be a valid identifier.
    pub fn new(values: Vec<VarValue>, id: &str) -> (r: Result<Observation, String>)
        ensures
            match r {
                Ok(o) => is_valid_id(id@) && o@ == (id@, values@),
                Err(_) => !is_valid_id(id@),
            },
    {
        if !crate::ids::check_valid_id(id) {
            return Err(String::from_str("an observation id must be a valid identifier"));
        }
        Ok(Observation { id: String::from_str(id), values })
    }
}

/// A named dataset: variable names and observations, each with exactly one
/// value per variable.
#[derive(Clone, Debug, PartialEq, Eq)]
pub struct Dataset {
    pub name: String,
    pub variables: Vec<String>,
    pub observations: Vec<Observation>,
}

impl View for Dataset {
    type V = (Seq<char>, Seq<Seq<char>>, Seq<(Seq<char>, Seq<VarValue>)>);

    open spec fn view(&self) -> (Seq<char>, Seq<Seq<char>>, Seq<(Seq<char>, Seq<VarValue>)>) {
        (self.name@, self.variables.deep_view(), self.observations.deep_view())
    }
}

/// Dataset shape: every observation has one value per variable.
pub open spec fn dataset_wf(d: (Seq<char>, Seq<Seq<char>>, Seq<(Seq<char>, Seq<VarValue>)>)) -> bool {
    forall|i: int| 0 <= i < d.2.len() ==> (#[trigger] d.2[i]).1.len() == d.1.len()
}

impl Dataset {
    /// Create a dataset, checking that every observation carries exactly one
    /// value per variable.
    pub fn new(name: &str, observations: Vec<Observation>, variables: Vec<String>) -> (r: Result<
        Dataset,
        String,
    >)
        ensures
            match r {
                Ok(d) => {
                    &&& d@.0 == name@
                    &&& d@.1 == variables.deep_view()
                    &&& d@.2 == observations.deep_view()
                    &&& dataset_wf(d@)
                },
                Err(_) => exists|i: int|
                    0 <= i < observations.deep_view().len() && (#[trigger] observations.deep_view()[
                        i
                    ]).1.len() != variables.deep_view().len(),
            },
    {
        let n = observations.len();
        let mut i: usize = 0;
        while i < n
            invariant
                i <= n,
                n == observations@.len(),
                forall|j: int|
                    0 <= j < i ==> (#[trigger] observations.deep_view()[j]).1.len()
                        == variables.deep_view().len(),
            decreases n - i,
        {
            proof {
                assert(observations.deep_view()[i as int] == observations@[i as int]@);
            }
            if observations[i].values.len() != variables.len() {
                proof {
                    assert(observations.deep_view()[i as int].1.len()
                        != variables.deep_view().len());
                }
                return Err(
                    String::from_str("an observation does not match the variable count"),
                );
            }
            i += 1;
        }
        Ok(Dataset { name: String::from_str(name), variables, observations })
    }

    /// Number of variables.
    pub fn num_variables(&self) -> (r: usize)
        ensures
            r == self@.1.len(),
    {
        self.variables.len()
    }

    /// Number of observations.
    pub fn num_observations(&self) -> (r: usize)
        ensures
            r == self@.2.len(),
    {
        self.observations.len()
    }
}

/// What the `csv` crate parses the given text into: a header row followed by
/// record rows. The result depends on the text alone.
pub uninterp spec fn csv_table_of(s: Seq<char>) -> Option<Seq<Seq<Seq<char>>>>;

/// Relies on `csv::Reader`: reads comma-separated text into a header row and
/// record rows.
#[verifier::external_body]
fn parse_csv_text(text: &str) -> (r: Option<(Vec<String>, Vec<Vec<String>>)>)
    ensures
        match r {
            Some(t) => csv_table_of(text@) matches Some(rows) && rows.len() >= 1 && t.0.deep_view()
                == rows[0] && t.1.deep_view() == rows.drop_first(),
            None => csv_table_of(text@) is None,
        },
{
    let mut rdr = csv::Reader::from_reader(text.as_bytes());
    let header: Vec<String> = rdr.headers().ok()?.iter().map(|f| f.to_string()).collect();
    let mut rows: Vec<Vec<String>> = Vec::new();
    for record in rdr.records() {
        rows.push(record.ok()?.iter().map(|f| f.to_string()).collect());
    }
    Some((header, rows))
}

/// Mirror of the record-to-observation step: every field after the id must
/// be a readable value.
pub open spec fn spec_parse_values(fields: Seq<Seq<char>>) -> Option<Seq<VarValue>>
    decreases fields.len(),
{
    if fields.len() == 0 {
        Some(Seq::empty())
    } else {
        match (spec_parse_var_value(fields.first()), spec_parse_values(fields.drop_first())) {
            (Some(v), Some(rest)) => Some(seq![v] + rest),
            _ => None,
        }
    }
}

/// Mirror of one record row: a nonempty row whose first field is a valid id
/// and whose remaining fields are values.
pub open spec fn spec_parse_observation(row: Seq<Seq<char>>) -> Option<(Seq<char>, Seq<VarValue>)> {
    if row.len() == 0 {
        None
    } else if !is_valid_id(row[0]) {
        None
    } else {
        match spec_parse_values(row.drop_first()) {
            Some(vs) => Some((row[0], vs)),
            None => None,
        }
    }
}

impl ObservationManager {
    /// Parse the fields of one record row into an observation.
    fn observation_from_row(row: &Vec<String>) -> (r: Result<Observation, String>)
        ensures
            match r {
                Ok(o) => spec_parse_observation(row.deep_view()) == Some(o@),
                Err(_) => spec_parse_observation(row.deep_view()) is None,
            },
    {
        if row.len() == 0 {
            return Err(String::from_str("cannot import an empty observation"));
        }
        let ghost fields = row.deep_view();
        let mut values: Vec<VarValue> = Vec::new();
        let n = row.len();
        let mut i: usize = 1;
        proof {
            assert(fields.len() == n);
            match spec_parse_values(fields.skip(1)) {
                Some(vs) => {
                    assert(vs =~= values@ + vs);
                },
                None => {},
            }
        }
        while i < n
            invariant
                1 <= i <= n,
                n == row@.len(),
                fields == row.deep_view(),
                values@.len() == i - 1,
                (spec_parse_values(fields.skip(1)) is Some) == (spec_parse_values(
                    fields.skip(i as int),
                ) is Some),
                spec_parse_values(fields.skip(1)) matches Some(vs) ==> spec_parse_values(
                    fields.skip(i as int),
                ) matches Some(rest) && vs == values@ + rest,
            decreases n - i,
        {
            proof {
                assert(fields.skip(i as int).first() == fields[i as int]);
                assert(fields[i as int] == row@[i as int]@);
                assert(fields.skip(i as int).drop_first() =~= fields.skip(i as int + 1));
            }
            let v = match VarValue::from_str(row[i].as_str()) {
                Ok(v) => v,
                Err(e) => {
                    proof {
                        assert(spec_parse_values(fields.skip(i as int)) is None);
                        assert(fields.drop_first() =~= fields.skip(1));
                    }
                    return Err(e);
                },
            };
            let ghost valpre = values@;
            values.push(v);
            proof {
                assert(spec_parse_values(fields.skip(i as int)) is Some ==> (spec_parse_values(
                    fields.skip(i as int),
                ) matches Some(w) && w == seq![v] + spec_parse_values(
                    fields.skip(i as int + 1),
                )->Some_0));
                match spec_parse_values(fields.skip(1)) {
                    Some(vs) => {
                        let rest2 = spec_parse_values(fields.skip(i as int + 1))->Some_0;
                        assert(vs == valpre + (seq![v] + rest2));
                        assert(valpre + (seq![v] + rest2) =~= values@ + rest2);
                    },
                    None => {},
                }
            }
            i += 1;
        }
        proof {
            assert(fields.skip(n as int).len() == 0);
            assert(spec_parse_values(fields.skip(n as int)) == Some(Seq::<VarValue>::empty()));
            match spec_parse_values(fields.skip(1)) {
                Some(vs) => {
                    assert(vs =~= values@);
                },
                None => {
                    assert(false);
                },
            }
            assert(fields.drop_first() =~= fields.skip(1));
        }
        let o = Observation::new(values, row[0].as_str())?;
        proof {
            assert(fields[0] == row@[0]@);
        }
        Ok(o)
    }
}

/// The datasets a session has imported, keyed by id.
#[derive(Clone, Debug, PartialEq, Eq)]
pub struct ObservationManager {
    pub datasets: Table<Dataset>,
}

impl View for ObservationManager {
    type V = Seq<(Seq<char>, (Seq<char>, Seq<Seq<char>>, Seq<(Seq<char>, Seq<VarValue>)>))>;

    open spec fn view(&self) -> Seq<
        (Seq<char>, (Seq<char>, Seq<Seq<char>>, Seq<(Seq<char>, Seq<VarValue>)>)),
    > {
        self.datasets@
    }
}

impl ObservationManager {
    /// Ascending, duplicate-free dataset ids.
    pub open spec fn wf(self) -> bool {
        tbl_sorted(self@)
    }

    /// An empty manager.
    pub fn new() -> (r: ObservationManager)
        ensures
            r.wf(),
            r@ =~= Seq::<
                (Seq<char>, (Seq<char>, Seq<Seq<char>>, Seq<(Seq<char>, Seq<VarValue>)>)),
            >::empty(),
    {
        ObservationManager { datasets: Table::new() }
    }

    /// Parse a dataset from comma-separated text: the header line names the
    /// variables (after an id column), every record line is one observation.
    pub fn parse_dataset(name: &str, csv_text: &str) -> (r: Result<Dataset, String>)
        ensures
            csv_table_of(csv_text@) is None ==> r is Err,
            r matches Ok(d) ==> {
                &&& csv_table_of(csv_text@) matches Some(rows)
                &&& d@.0 == name@
                &&& d@.1 == csv_table_of(csv_text@)->Some_0[0].drop_first()
                &&& d@.2.len() == csv_table_of(csv_text@)->Some_0.len() - 1
                &&& forall|i: int|
                    0 <= i < d@.2.len() ==> Some(#[trigger] d@.2[i]) == spec_parse_observation(
                        csv_table_of(csv_text@)->Some_0[i + 1],
                    )
                &&& dataset_wf(d@)
            },
    {
        let t = match parse_csv_text(csv_text) {
            Some(t) => t,
            None => {
                return Err(String::from_str("could not read the tabular text"));
            },
        };
        let header = t.0;
        let records = t.1;
        let ghost rows = csv_table_of(csv_text@)->Some_0;
        proof {
            assert(header.deep_view() == rows[0]);
            assert(records.deep_view() == rows.drop_first());
            assert(records.deep_view().len() == records@.len());
            assert(rows.len() == records@.len() + 1);
        }
        if header.len() == 0 {
            return Err(String::from_str("the header line is empty"));
        }
        // Variable names: the header after its leading id column.
        let mut variables: Vec<String> = Vec::new();
        let hn = header.len();
        let mut i: usize = 1;
        while i < hn
            invariant
                1 <= i,
                i <= hn || i == 1,
                hn == header@.len(),
                variables@.len() == i - 1,
                forall|j: int| 0 <= j < i - 1 ==> (#[trigger] variables@[j])@ == header@[j + 1]@,
            decreases hn - i,
        {
            variables.push(header[i].clone());
            i += 1;
        }
        proof {
            assert(i == hn);
            assert(header.deep_view().drop_first().len() == hn - 1);
            assert forall|j: int| 0 <= j < variables.deep_view().len() implies (
            #[trigger] variables.deep_view()[j]) == header.deep_view().drop_first()[j] by {
                assert(variables.deep_view()[j] == variables@[j]@);
                assert(header.deep_view().drop_first()[j] == header.deep_view()[j + 1]);
                assert(header.deep_view()[j + 1] == header@[j + 1]@);
            }
            assert(variables.deep_view() =~= header.deep_view().drop_first());
        }
        // Observations: one per record row.
        let mut observations: Vec<Observation> = Vec::new();
        let rn = records.len();
        let mut k: usize = 0;
        while k < rn
            invariant
                k <= rn,
                rn == records@.len(),
                records.deep_view() == rows.drop_first(),
                rows == csv_table_of(csv_text@)->Some_0,
                rows.len() == rn + 1,
                observations@.len() == k,
                forall|j: int|
                    0 <= j < k ==> Some((#[trigger] observations@[j])@) == spec_parse_observation(
                        rows[j + 1],
                    ),
            decreases rn - k,
        {
            proof {
                assert(records.deep_view()[k as int] == records@[k as int].deep_view());
                assert(rows.drop_first()[k as int] == rows[k as int + 1]);
            }
            let o = match Self::observation_from_row(&records[k]) {
                Ok(o) => o,
                Err(e) => {
                    return Err(e);
                },
            };
            observations.push(o);
            k += 1;
        }
        let ghost obsv = observations.deep_view();
        proof {
            assert(forall|j: int|
                0 <= j < obsv.len() ==> #[trigger] obsv[j] == observations@[j]@);
        }
        let d = Dataset::new(name, observations, variables)?;
        proof {
            assert(d@.2 == obsv);
            assert forall|j: int| 0 <= j < d@.2.len() implies Some(#[trigger] d@.2[j])
                == spec_parse_observation(rows[j + 1]) by {
                assert(obsv[j] == observations@[j]@);
                assert(Some(obsv[j]) == spec_parse_observation(rows[j + 1]));
            }
        }
        Ok(d)
    }

    /// Number of datasets.
    pub fn num_datasets(&self) -> (r: usize)
        ensures
            r == self@.len(),
    {
        self.datasets.len()
    }

    /// Register `dataset` under `id`. Fails, changing nothing, exactly when
    /// `id` is already taken.
    pub fn add_dataset_by_str(&mut self, id: &str, dataset: Dataset) -> (r: Result<(), String>)
        requires
            old(self).wf(),
        ensures
            final(self).wf(),
            match r {
                Ok(_) => !tbl_contains(old(self)@, id@) && final(self)@ == tbl_insert(
                    old(self)@,
                    id@,
                    dataset@,
                ),
                Err(_) => tbl_contains(old(self)@, id@) && *final(self) == *old(self),
            },
    {
        if self.datasets.contains_key(id) {
            return Err(String::from_str("a dataset with this id already exists"));
        }
        let ghost s0 = self@;
        self.datasets.insert_new(String::from_str(id), dataset);
        proof {
            lemma_insert_props(s0, id@, dataset@);
        }
        Ok(())
    }

    /// The dataset registered under `id`, if any.
    pub fn get_dataset(&self, id: &str) -> (r: Option<&Dataset>)
        ensures
            match r {
                Some(d) => tbl_get(self@, id@) == Some(d@),
                None => tbl_get(self@, id@) is None,
            },
    {
        self.datasets.get(id)
    }
}

} // verus!
