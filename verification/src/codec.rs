use vstd::prelude::*;
use vstd::string::StrSliceExecFns;
use vstd::string::StringExecFns;

verus! {

/// The composite key addressing a row: the table name, a separator, then the
/// row id. It is the sole identifier of a row in both cache and collaborator.
pub open spec fn row_key(table: Seq<char>, id: Seq<char>) -> Seq<char> {
    table.push('/') + id
}

/// The key prefix shared by every row key of a table.
pub open spec fn table_prefix(table: Seq<char>) -> Seq<char> {
    table.push('/')
}

/// The key under which a table's existence sentinel is stored: the table name
/// itself, with an empty payload.
pub open spec fn sentinel_key(table: Seq<char>) -> Seq<char> {
    table
}

/// `p` is a prefix of `s`.
pub open spec fn has_prefix(s: Seq<char>, p: Seq<char>) -> bool {
    p.len() <= s.len() && s.subrange(0, p.len() as int) == p
}

/// Builds the composite key `table + "/" + id` of a row. No escaping is
/// performed: table names and row ids that hold `'/'` themselves break the
/// exact prefix-scan semantics of truncation and must not be used by callers
/// that need it.
pub fn encode_key(table: &str, id: &str) -> (r: String)
    ensures
        r@ == row_key(table@, id@),
{
    let mut k: String = table.to_owned();
    k.append("/");
    k.append(id);
    proof {
        reveal_strlit("/");
        assert(k@ =~= row_key(table@, id@));
    }
    k
}

/// The key a table's existence sentinel is stored under: the table name
/// itself.
pub fn table_sentinel<'a>(table: &'a str) -> (r: &'a str)
    ensures
        r@ == sentinel_key(table@),
{
    table
}

/// Builds the prefix `table + "/"` that every row key of the table carries.
pub fn encode_table_prefix(table: &str) -> (r: String)
    ensures
        r@ == table_prefix(table@),
{
    let mut k: String = table.to_owned();
    k.append("/");
    proof {
        reveal_strlit("/");
        assert(k@ =~= table_prefix(table@));
    }
    k
}

/// Tests whether `s` begins with the prefix `p`, character by character.
pub fn starts_with_prefix(s: &str, p: &str) -> (r: bool)
    ensures
        r == has_prefix(s@, p@),
{
    let n = p.unicode_len();
    let m = s.unicode_len();
    if n > m {
        return false;
    }
    let mut i: usize = 0;
    while i < n
        invariant
            i <= n,
            n == p@.len(),
            m == s@.len(),
            n <= m,
            forall|j: int| 0 <= j < i ==> s@[j] == p@[j],
        decreases n - i,
    {
        if s.get_char(i) != p.get_char(i) {
            proof {
                assert(!has_prefix(s@, p@)) by {
                    if has_prefix(s@, p@) {
                        assert(s@.subrange(0, p@.len() as int)[i as int] == s@[i as int]);
                    }
                }
            }
            return false;
        }
        i += 1;
    }
    proof {
        assert(s@.subrange(0, p@.len() as int) =~= p@);
    }
    true
}

/// Within one table, distinct row ids give distinct composite keys.
pub proof fn lemma_row_key_distinct(table: Seq<char>, id1: Seq<char>, id2: Seq<char>)
    requires
        id1 != id2,
    ensures
        row_key(table, id1) != row_key(table, id2),
{
    if row_key(table, id1) == row_key(table, id2) {
        let p = table.push('/');
        assert(p + id1 == p + id2);
        assert((p + id1).len() == p.len() + id1.len());
        assert((p + id2).len() == p.len() + id2.len());
        assert(id1.len() == id2.len());
        assert forall|j: int| 0 <= j < id1.len() implies id1[j] == id2[j] by {
            assert((p + id1)[p.len() + j] == id1[j]);
            assert((p + id2)[p.len() + j] == id2[j]);
        }
        assert(id1 =~= id2);
    }
}

/// Truncation isolation at the key level: every row key of a table carries
/// that table's prefix, and, as long as table names hold no `'/'`, a row key
/// of a different table never does.
pub proof fn lemma_truncate_isolation(t1: Seq<char>, t2: Seq<char>, id: Seq<char>)
    requires
        !t1.contains('/'),
        !t2.contains('/'),
        t1 != t2,
    ensures
        has_prefix(row_key(t1, id), table_prefix(t1)),
        !has_prefix(row_key(t2, id), table_prefix(t1)),
{
    let k1 = row_key(t1, id);
    let p1 = table_prefix(t1);
    assert(k1.subrange(0, p1.len() as int) =~= p1);

    let k2 = row_key(t2, id);
    let m = t1.len() as int;
    let n = t2.len() as int;
    if has_prefix(k2, p1) {
        if m == n {
            assert forall|j: int| 0 <= j < m implies t1[j] == t2[j] by {
                assert(k2.subrange(0, p1.len() as int)[j] == p1[j]);
            }
            assert(t1 =~= t2);
        } else if m < n {
            assert(k2.subrange(0, p1.len() as int)[m] == p1[m]);
            assert(t2[m] == '/');
            assert(t2.contains('/'));
        } else {
            assert(k2.subrange(0, p1.len() as int)[n] == p1[n]);
            assert(t1[n] == '/');
            assert(t1.contains('/'));
        }
        assert(false);
    }
}

} // verus!
