use vstd::prelude::*;
use vstd::string::*;

verus! {

/// The kind of a callable function.
#[derive(Clone, Copy, Debug, PartialEq, Eq, Hash, Structural)]
pub enum FunctionType {
    Scalar,
    Aggregate,
    Window,
}

/// A function callable from SQL whose implementation is resolved outside the
/// execution engine; the engine knows it only as a pass-through placeholder.
#[derive(Clone, Debug, Hash)]
pub struct RemoteFunction {
    pub name: String,
    pub function_type: FunctionType,
    pub return_type: String,
    pub param_names: Option<Vec<String>>,
    pub param_types: Option<Vec<String>>,
    pub description: Option<String>,
}

/// The mathematical shape of a remote function.
pub ghost struct RemoteFunctionV {
    pub name: Seq<char>,
    pub function_type: FunctionType,
    pub return_type: Seq<char>,
    pub param_names: Option<Seq<Seq<char>>>,
    pub param_types: Option<Seq<Seq<char>>>,
    pub description: Option<Seq<char>>,
}

impl View for RemoteFunction {
    type V = RemoteFunctionV;

    open spec fn view(&self) -> RemoteFunctionV {
        RemoteFunctionV {
            name: self.name@,
            function_type: self.function_type,
            return_type: self.return_type@,
            param_names: self.param_names.deep_view(),
            param_types: self.param_types.deep_view(),
            description: self.description.deep_view(),
        }
    }
}

impl DeepView for RemoteFunction {
    type V = RemoteFunctionV;

    open spec fn deep_view(&self) -> RemoteFunctionV {
        self.view()
    }
}

/// Are two strings the same text?
fn str_eq(a: &String, b: &str) -> (r: bool)
    ensures
        r == (a@ == b@),
{
    let bs = b.to_owned();
    *a == bs
}

/// The index of the first comma of `s` (the length when there is none).
pub open spec fn spec_find_comma(s: Seq<char>) -> int
    decreases s.len(),
{
    if s.len() == 0 {
        0
    } else if s[0] == ',' {
        0
    } else {
        1 + spec_find_comma(s.skip(1))
    }
}

proof fn lemma_find_comma(s: Seq<char>)
    ensures
        0 <= spec_find_comma(s) <= s.len(),
        forall|j: int| 0 <= j < spec_find_comma(s) ==> s[j] != ',',
        spec_find_comma(s) < s.len() ==> s[spec_find_comma(s)] == ',',
    decreases s.len(),
{
    if s.len() == 0 {
    } else if s[0] == ',' {
    } else {
        lemma_find_comma(s.skip(1));
        assert forall|j: int| 0 <= j < spec_find_comma(s) implies s[j] != ',' by {
            if j >= 1 {
                assert(s[j] == s.skip(1)[j - 1]);
            }
        }
        if spec_find_comma(s) < s.len() {
            assert(s[spec_find_comma(s)] == s.skip(1)[spec_find_comma(s.skip(1))]);
        }
    }
}

/// The fields of a comma-separated cell, in order.
pub open spec fn spec_split_commas(s: Seq<char>) -> Seq<Seq<char>>
    decreases s.len(),
{
    let i = spec_find_comma(s);
    if i < 0 || i >= s.len() {
        seq![s]
    } else {
        seq![s.take(i)] + spec_split_commas(s.skip(i + 1))
    }
}

/// The index of the first comma of `s` (its length when there is none).
fn find_comma(s: &str) -> (r: usize)
    ensures
        r == spec_find_comma(s@),
{
    proof {
        lemma_find_comma(s@);
    }
    let n = s.unicode_len();
    let mut i: usize = 0;
    while i < n
        invariant
            0 <= i <= n,
            n == s@.len(),
            forall|j: int| 0 <= j < i ==> s@[j] != ',',
        decreases n - i,
    {
        let c = s.get_char(i);
        if c == ',' {
            proof {
                lemma_find_comma(s@);
                let f = spec_find_comma(s@);
                if f < i as int {
                    assert(s@[f] != ',');
                }
                if f > i as int {
                    assert(s@[i as int] != ',');
                }
            }
            return i;
        }
        i = i + 1;
    }
    proof {
        lemma_find_comma(s@);
        let f = spec_find_comma(s@);
        if f < n as int {
            assert(s@[f] != ',');
        }
    }
    n
}

/// Split a cell at its commas, keeping empty fields.
pub fn split_commas(s: &str) -> (r: Vec<String>)
    ensures
        r.deep_view() == spec_split_commas(s@),
    decreases s@.len(),
{
    proof {
        lemma_find_comma(s@);
    }
    let n = s.unicode_len();
    let i = find_comma(s);
    if i == n {
        let mut v: Vec<String> = Vec::new();
        v.push(s.to_owned());
        proof {
            assert(v.deep_view() =~~= spec_split_commas(s@));
        }
        v
    } else {
        let head = s.substring_char(0, i).to_owned();
        let tail = s.substring_char(i + 1, n);
        let mut rest = split_commas(tail);
        rest.insert(0, head);
        proof {
            assert(tail@ =~= s@.skip(i + 1));
            assert(head@ =~= s@.take(i as int));
            assert(rest.deep_view() =~~= spec_split_commas(s@));
        }
        rest
    }
}

/// The index of the first header equal to `name` (the header count when
/// there is none).
pub open spec fn spec_col_index(headers: Seq<Seq<char>>, name: Seq<char>) -> int
    decreases headers.len(),
{
    if headers.len() == 0 {
        0
    } else if headers[0] == name {
        0
    } else {
        1 + spec_col_index(headers.skip(1), name)
    }
}

proof fn lemma_col_index(headers: Seq<Seq<char>>, name: Seq<char>)
    ensures
        0 <= spec_col_index(headers, name) <= headers.len(),
        forall|j: int| 0 <= j < spec_col_index(headers, name) ==> headers[j] != name,
        spec_col_index(headers, name) < headers.len() ==> headers[spec_col_index(
            headers,
            name,
        )] == name,
    decreases headers.len(),
{
    if headers.len() == 0 {
    } else if headers[0] == name {
    } else {
        lemma_col_index(headers.skip(1), name);
        assert forall|j: int| 0 <= j < spec_col_index(headers, name) implies headers[j]
            != name by {
            if j >= 1 {
                assert(headers[j] == headers.skip(1)[j - 1]);
            }
        }
        if spec_col_index(headers, name) < headers.len() {
            assert(headers[spec_col_index(headers, name)] == headers.skip(1)[spec_col_index(
                headers.skip(1),
                name,
            )]);
        }
    }
}

/// The position of a named column among the headers.
fn find_column(headers: &Vec<String>, name: &str) -> (r: usize)
    ensures
        r == spec_col_index(headers.deep_view(), name@),
        r <= headers@.len(),
{
    proof {
        lemma_col_index(headers.deep_view(), name@);
    }
    let n = headers.len();
    let mut i: usize = 0;
    while i < n
        invariant
            0 <= i <= n,
            n == headers@.len(),
            headers.deep_view().len() == headers@.len(),
            forall|j: int| 0 <= j < i ==> headers.deep_view()[j] != name@,
        decreases n - i,
    {
        if str_eq(&headers[i], name) {
            proof {
                lemma_col_index(headers.deep_view(), name@);
                let f = spec_col_index(headers.deep_view(), name@);
                if f < i as int {
                    assert(headers.deep_view()[f] != name@);
                }
                if f > i as int {
                    assert(headers.deep_view()[i as int] != name@);
                }
            }
            return i;
        }
        i = i + 1;
    }
    proof {
        lemma_col_index(headers.deep_view(), name@);
        let f = spec_col_index(headers.deep_view(), name@);
        if f < n as int {
            assert(headers.deep_view()[f] != name@);
        }
    }
    n
}

/// The function type a catalog cell names.
pub open spec fn spec_function_type(s: Seq<char>) -> Option<FunctionType> {
    if s == "scalar"@ {
        Some(FunctionType::Scalar)
    } else if s == "aggregate"@ {
        Some(FunctionType::Aggregate)
    } else if s == "window"@ {
        Some(FunctionType::Window)
    } else {
        None
    }
}

/// Read a catalog cell as a function type.
pub fn parse_function_type(s: &String) -> (r: Option<FunctionType>)
    ensures
        r == spec_function_type(s@),
{
    if str_eq(s, "scalar") {
        Some(FunctionType::Scalar)
    } else if str_eq(s, "aggregate") {
        Some(FunctionType::Aggregate)
    } else if str_eq(s, "window") {
        Some(FunctionType::Window)
    } else {
        None
    }
}

/// The remote function one catalog row describes under the given headers:
/// `None` when the row is malformed (wrong field count, required column
/// missing, or an unknown function type). Optional cells left empty stand
/// for absent metadata; parameter cells are comma-separated lists.
pub open spec fn spec_row_function(headers: Seq<Seq<char>>, row: Seq<Seq<char>>) -> Option<
    RemoteFunctionV,
> {
    let n = headers.len() as int;
    let i_name = spec_col_index(headers, "name"@);
    let i_ft = spec_col_index(headers, "function_type"@);
    let i_rt = spec_col_index(headers, "return_type"@);
    let i_pn = spec_col_index(headers, "param_names"@);
    let i_pt = spec_col_index(headers, "param_types"@);
    let i_d = spec_col_index(headers, "description"@);
    if row.len() != headers.len() || i_name >= n || i_ft >= n || i_rt >= n {
        None
    } else {
        match spec_function_type(row[i_ft]) {
            None => None,
            Some(ft) => Some(
                RemoteFunctionV {
                    name: row[i_name],
                    function_type: ft,
                    return_type: row[i_rt],
                    param_names: if i_pn < n && row[i_pn].len() > 0 {
                        Some(spec_split_commas(row[i_pn]))
                    } else {
                        None
                    },
                    param_types: if i_pt < n && row[i_pt].len() > 0 {
                        Some(spec_split_commas(row[i_pt]))
                    } else {
                        None
                    },
                    description: if i_d < n && row[i_d].len() > 0 {
                        Some(row[i_d])
                    } else {
                        None
                    },
                },
            ),
        }
    }
}

/// Read one catalog row under the given headers.
fn parse_row(headers: &Vec<String>, row: &Vec<String>) -> (r: Option<RemoteFunction>)
    ensures
        r.deep_view() == spec_row_function(headers.deep_view(), row.deep_view()),
{
    let n = headers.len();
    let i_name = find_column(headers, "name");
    let i_ft = find_column(headers, "function_type");
    let i_rt = find_column(headers, "return_type");
    let i_pn = find_column(headers, "param_names");
    let i_pt = find_column(headers, "param_types");
    let i_d = find_column(headers, "description");
    if row.len() != n || i_name >= n || i_ft >= n || i_rt >= n {
        return None;
    }
    let ft = match parse_function_type(&row[i_ft]) {
        None => {
            return None;
        },
        Some(t) => t,
    };
    let param_names = if i_pn < n && row[i_pn].unicode_len() > 0 {
        Some(split_commas(row[i_pn].as_str()))
    } else {
        None
    };
    let param_types = if i_pt < n && row[i_pt].unicode_len() > 0 {
        Some(split_commas(row[i_pt].as_str()))
    } else {
        None
    };
    let description = if i_d < n && row[i_d].unicode_len() > 0 {
        Some(row[i_d].clone())
    } else {
        None
    };
    Some(
        RemoteFunction {
            name: row[i_name].clone(),
            function_type: ft,
            return_type: row[i_rt].clone(),
            param_names,
            param_types,
            description,
        },
    )
}

/// What the csv reader makes of the raw bytes: each record as its fields,
/// `None` for a record the reader refuses.
pub uninterp spec fn csv_rows(data: Seq<u8>) -> Seq<Option<Seq<Seq<char>>>>;

/// Relies on the csv crate's `Reader`: splits raw bytes into records and
/// fields, treating no record as special; a record the reader refuses (for
/// instance one whose field count differs from the first record's) comes
/// back as `None`. The records are a function of the bytes alone.
#[verifier::external_body]
fn read_csv_rows(data: &[u8]) -> (r: Vec<Option<Vec<String>>>)
    ensures
        r.deep_view() == csv_rows(data@),
{
    let mut rdr = csv::ReaderBuilder::new().has_headers(false).from_reader(data);
    rdr.records().map(
        |rec: Result<csv::StringRecord, csv::Error>| {
            rec.ok().map(|row| row.iter().map(|f| f.to_string()).collect())
        },
    ).collect()
}

/// The catalog the records describe: the first record names the columns,
/// each later record is one remote function, and every record the reader or
/// the column mapping refuses is dropped.
pub open spec fn spec_catalog_rows(
    headers: Seq<Seq<char>>,
    rows: Seq<Option<Seq<Seq<char>>>>,
) -> Seq<RemoteFunctionV>
    decreases rows.len(),
{
    if rows.len() == 0 {
        Seq::empty()
    } else {
        let rest = spec_catalog_rows(headers, rows.drop_last());
        match rows.last() {
            None => rest,
            Some(row) => match spec_row_function(headers, row) {
                None => rest,
                Some(f) => rest.push(f),
            },
        }
    }
}

/// The catalog of a whole record list, header record included.
pub open spec fn spec_catalog(rows: Seq<Option<Seq<Seq<char>>>>) -> Seq<RemoteFunctionV> {
    if rows.len() == 0 {
        Seq::empty()
    } else {
        match rows[0] {
            None => Seq::empty(),
            Some(headers) => spec_catalog_rows(headers, rows.skip(1)),
        }
    }
}

/// Build the catalog from the records of a tabular source.
fn catalog_from_rows(rows: &Vec<Option<Vec<String>>>) -> (r: Vec<RemoteFunction>)
    ensures
        r.deep_view() == spec_catalog(rows.deep_view()),
{
    let mut out: Vec<RemoteFunction> = Vec::new();
    if rows.len() == 0 {
        return out;
    }
    let headers = match &rows[0] {
        None => {
            return out;
        },
        Some(h) => h,
    };
    let ghost hd = headers.deep_view();
    let ghost all = rows.deep_view();
    let mut k: usize = 1;
    proof {
        assert(all.skip(1).take(0) =~= Seq::<Option<Seq<Seq<char>>>>::empty());
    }
    while k < rows.len()
        invariant
            1 <= k <= rows@.len(),
            all == rows.deep_view(),
            all.len() == rows@.len(),
            hd == headers.deep_view(),
            all[0] == Some(hd),
            out.deep_view() == spec_catalog_rows(hd, all.skip(1).take(k - 1)),
        decreases rows@.len() - k,
    {
        proof {
            assert(all.skip(1).take(k as int).drop_last() =~= all.skip(1).take(k - 1));
            assert(all.skip(1).take(k as int).last() == all[k as int]);
            assert(all[k as int] == rows@[k as int].deep_view());
        }
        let ghost prev = out.deep_view();
        match &rows[k] {
            None => {
                proof {
                    assert(out.deep_view() == spec_catalog_rows(hd, all.skip(1).take(k as int)));
                }
            },
            Some(row) => {
                proof {
                    assert(all[k as int] == Some(row.deep_view()));
                }
                match parse_row(headers, row) {
                    None => {
                        proof {
                            assert(out.deep_view() == spec_catalog_rows(
                                hd,
                                all.skip(1).take(k as int),
                            ));
                        }
                    },
                    Some(f) => {
                        let ghost fv = f.deep_view();
                        out.push(f);
                        proof {
                            assert(out.deep_view() =~= prev.push(fv));
                            assert(out.deep_view() == spec_catalog_rows(
                                hd,
                                all.skip(1).take(k as int),
                            ));
                        }
                    },
                }
            },
        }
        k = k + 1;
    }
    proof {
        assert(all.skip(1).take(rows@.len() - 1) =~= all.skip(1));
    }
    out
}

/// Load the remote-function catalog from the raw bytes of a tabular source:
/// the first record names the columns; records that fail to read or to map
/// are silently dropped, so a partial catalog is possible and loading never
/// fails.
pub fn load_remote_functions(data: &[u8]) -> (r: Vec<RemoteFunction>)
    ensures
        r.deep_view() == spec_catalog(csv_rows(data@)),
{
    let rows = read_csv_rows(data);
    catalog_from_rows(&rows)
}

} // verus!
