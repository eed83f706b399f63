use vstd::prelude::*;

verus! {

/// Why an operation of the row store failed.
#[derive(Clone, Copy, Debug, PartialEq, Eq, Structural)]
pub enum VibraError {
    /// The durable collaborator failed a put, get, delete, scan or clear call.
    StorageIOFailure,
    /// An encryption layer failed; fatal to the write that needed it.
    EncryptionFailure,
    /// A stored record was shorter than its layer material, or a layer's
    /// authentication tag did not verify.
    DecryptionFailure,
    /// Recovered plaintext could not be decoded as a column list.
    SerializationFailure,
}

/// A named column of a table, as a name and the type of its values.
#[derive(Clone, Debug)]
pub struct Column {
    pub name: String,
    pub data_type: String,
}

/// A row of a table: a unique identifier and the column name/value pairs,
/// kept in insertion order.
#[derive(Clone, Debug)]
pub struct Row {
    pub id: String,
    pub columns: Vec<(String, String)>,
}

/// The mathematical view of a column list: each name/value pair as a pair of
/// character sequences.
pub open spec fn cols_view(cols: Seq<(String, String)>) -> Seq<(Seq<char>, Seq<char>)> {
    cols.map_values(|c: (String, String)| (c.0@, c.1@))
}

impl PartialEq for Column {
    fn eq(&self, other: &Column) -> (r: bool) {
        self.name == other.name && self.data_type == other.data_type
    }
}

impl vstd::std_specs::cmp::PartialEqSpecImpl for Column {
    open spec fn obeys_eq_spec() -> bool {
        true
    }

    open spec fn eq_spec(&self, other: &Column) -> bool {
        self.name@ == other.name@ && self.data_type@ == other.data_type@
    }
}

impl PartialEq for Row {
    fn eq(&self, other: &Row) -> (r: bool) {
        if !(self.id == other.id) {
            return false;
        }
        if self.columns.len() != other.columns.len() {
            assert(cols_view(self.columns@).len() != cols_view(other.columns@).len());
            return false;
        }
        let n = self.columns.len();
        let mut i: usize = 0;
        while i < n
            invariant
                i <= n,
                n == self.columns@.len(),
                n == other.columns@.len(),
                forall|j: int|
                    0 <= j < i ==> #[trigger] cols_view(self.columns@)[j] == cols_view(
                        other.columns@,
                    )[j],
            decreases n - i,
        {
            let a = vstd::slice::slice_index_get(self.columns.as_slice(), i);
            let b = vstd::slice::slice_index_get(other.columns.as_slice(), i);
            proof {
                assert(*a == self.columns@[i as int]);
                assert(*b == other.columns@[i as int]);
            }
            if !(a.0 == b.0) || !(a.1 == b.1) {
                assert(cols_view(self.columns@)[i as int] != cols_view(other.columns@)[i as int]);
                return false;
            }
            proof {
                assert(cols_view(self.columns@)[i as int] == cols_view(other.columns@)[i as int]);
            }
            i += 1;
        }
        proof {
            assert(cols_view(self.columns@) =~= cols_view(other.columns@));
        }
        true
    }
}

impl vstd::std_specs::cmp::PartialEqSpecImpl for Row {
    open spec fn obeys_eq_spec() -> bool {
        true
    }

    open spec fn eq_spec(&self, other: &Row) -> bool {
        self.id@ == other.id@ && cols_view(self.columns@) == cols_view(other.columns@)
    }
}

} // verus!
