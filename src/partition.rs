use vstd::prelude::*;

verus! {

/// Whether the name matches the shell glob pattern; `None` where the pattern does not
/// translate to a regular expression.
pub uninterp spec fn glob_match_of(pattern: Seq<char>, name: Seq<char>) -> Option<bool>;

/// Relies on `fnmatch_regex::glob_to_regex` to translate the glob, and on the returned
/// regex's `is_match` to test the name.
#[verifier::external_body]
fn glob_match(pattern: &String, name: &String) -> (r: Option<bool>)
    ensures
        r == glob_match_of(pattern@, name@),
{
    match fnmatch_regex::glob_to_regex(pattern) {
        Ok(regex) => Some(regex.is_match(name)),
        Err(_) => None,
    }
}

pub open spec fn names(v: Seq<String>) -> Seq<Seq<char>> {
    v.map_values(|s: String| s@)
}

/// Some name is in both lists.
pub open spec fn literal_match(a: Seq<Seq<char>>, b: Seq<Seq<char>>) -> bool {
    exists|i: int, j: int| 0 <= i < a.len() && 0 <= j < b.len() && a[i] == b[j]
}

/// Some entry of `t` (indexed by a pattern, then a name) is a match.
pub open spec fn table_match(t: Seq<Seq<Option<bool>>>) -> bool {
    exists|i: int, j: int| 0 <= i < t.len() && 0 <= j < t[i].len() && t[i][j] == Some(true)
}

/// The partition rule over glob results given as tables: `remote_on_local[i][j]` tells
/// whether remote pattern `i` matches local name `j`, `local_on_remote[i][j]` the converse.
pub open spec fn partition_rule(
    local: Seq<Seq<char>>,
    remote: Seq<Seq<char>>,
    remote_on_local: Seq<Seq<Option<bool>>>,
    local_on_remote: Seq<Seq<Option<bool>>>,
) -> bool {
    local == remote || literal_match(local, remote) || table_match(remote_on_local) || table_match(
        local_on_remote,
    )
}

/// The table of glob results of each pattern on each name.
pub open spec fn glob_table(patterns: Seq<Seq<char>>, names: Seq<Seq<char>>) -> Seq<Seq<Option<bool>>> {
    Seq::new(
        patterns.len(),
        |i: int| Seq::new(names.len(), |j: int| glob_match_of(patterns[i], names[j])),
    )
}

/// Two partition lists match when equal, when they share a name, or when a glob of
/// either matches a name of the other.
pub open spec fn partitions_match(local: Seq<Seq<char>>, remote: Seq<Seq<char>>) -> bool {
    partition_rule(local, remote, glob_table(remote, local), glob_table(local, remote))
}

fn lists_equal(a: &Vec<String>, b: &Vec<String>) -> (r: bool)
    ensures
        r == (names(a@) == names(b@)),
{
    if a.len() != b.len() {
        return false;
    }
    let mut i: usize = 0;
    while i < a.len()
        invariant
            a@.len() == b@.len(),
            i <= a@.len(),
            forall|k: int| 0 <= k < i ==> a@[k]@ == b@[k]@,
        decreases a@.len() - i,
    {
        if a[i] != b[i] {
            assert(names(a@)[i as int] != names(b@)[i as int]);
            return false;
        }
        i += 1;
    }
    assert(names(a@) =~= names(b@));
    true
}

fn any_literal(a: &Vec<String>, b: &Vec<String>) -> (r: bool)
    ensures
        r == literal_match(names(a@), names(b@)),
{
    let mut i: usize = 0;
    while i < a.len()
        invariant
            i <= a@.len(),
            forall|k: int, l: int| 0 <= k < i && 0 <= l < b@.len() ==> a@[k]@ != b@[l]@,
        decreases a@.len() - i,
    {
        let mut j: usize = 0;
        while j < b.len()
            invariant
                i < a@.len(),
                j <= b@.len(),
                forall|l: int| 0 <= l < j ==> a@[i as int]@ != b@[l]@,
            decreases b@.len() - j,
        {
            if a[i] == b[j] {
                assert(names(a@)[i as int] == names(b@)[j as int]);
                return true;
            }
            j += 1;
        }
        i += 1;
    }
    proof {
        if literal_match(names(a@), names(b@)) {
            let (k, l) = choose|k: int, l: int|
                0 <= k < names(a@).len() && 0 <= l < names(b@).len() && names(a@)[k] == names(b@)[l];
            assert(a@[k]@ == b@[l]@);
        }
    }
    false
}

fn any_true(t: &Vec<Vec<Option<bool>>>) -> (r: bool)
    ensures
        r == table_match(t@.map_values(|row: Vec<Option<bool>>| row@)),
{
    let ghost tv = t@.map_values(|row: Vec<Option<bool>>| row@);
    let mut i: usize = 0;
    while i < t.len()
        invariant
            i <= t@.len(),
            tv == t@.map_values(|row: Vec<Option<bool>>| row@),
            forall|k: int, l: int| 0 <= k < i && 0 <= l < tv[k].len() ==> tv[k][l] != Some(true),
        decreases t@.len() - i,
    {
        let mut j: usize = 0;
        while j < t[i].len()
            invariant
                i < t@.len(),
                tv == t@.map_values(|row: Vec<Option<bool>>| row@),
                j <= t@[i as int]@.len(),
                forall|l: int| 0 <= l < j ==> tv[i as int][l] != Some(true),
            decreases t@[i as int]@.len() - j,
        {
            if t[i][j] == Some(true) {
                assert(tv[i as int][j as int] == Some(true));
                return true;
            }
            j += 1;
        }
        i += 1;
    }
    false
}

/// The partition decision from given glob results (see `partition_rule`).
pub fn partition_match_from(
    local: &Vec<String>,
    remote: &Vec<String>,
    remote_on_local: &Vec<Vec<Option<bool>>>,
    local_on_remote: &Vec<Vec<Option<bool>>>,
) -> (r: bool)
    ensures
        r == partition_rule(
            names(local@),
            names(remote@),
            remote_on_local@.map_values(|row: Vec<Option<bool>>| row@),
            local_on_remote@.map_values(|row: Vec<Option<bool>>| row@),
        ),
{
    lists_equal(local, remote) || any_literal(local, remote) || any_true(remote_on_local) || any_true(
        local_on_remote,
    )
}

/// The glob result of every pattern on every name.
fn make_table(patterns: &Vec<String>, names_v: &Vec<String>) -> (r: Vec<Vec<Option<bool>>>)
    ensures
        r@.map_values(|row: Vec<Option<bool>>| row@) == glob_table(names(patterns@), names(names_v@)),
{
    let mut t: Vec<Vec<Option<bool>>> = Vec::new();
    let mut i: usize = 0;
    let ghost g = glob_table(names(patterns@), names(names_v@));
    while i < patterns.len()
        invariant
            i <= patterns@.len(),
            g == glob_table(names(patterns@), names(names_v@)),
            t@.len() == i,
            forall|k: int| 0 <= k < i ==> (#[trigger] t@[k])@ == g[k],
        decreases patterns@.len() - i,
    {
        let mut row: Vec<Option<bool>> = Vec::new();
        let mut j: usize = 0;
        while j < names_v.len()
            invariant
                i < patterns@.len(),
                j <= names_v@.len(),
                row@.len() == j,
                forall|l: int| 0 <= l < j ==> row@[l] == glob_match_of(patterns@[i as int]@, names_v@[l]@),
            decreases names_v@.len() - j,
        {
            row.push(glob_match(&patterns[i], &names_v[j]));
            j += 1;
        }
        assert(row@ =~= g[i as int]);
        t.push(row);
        i += 1;
    }
    assert(t@.map_values(|row: Vec<Option<bool>>| row@) =~= g);
    t
}

/// Whether a local and a remote partition list match.
pub fn is_partition_matched(local: &Vec<String>, remote: &Vec<String>) -> (r: bool)
    ensures
        r == partitions_match(names(local@), names(remote@)),
{
    let remote_on_local = make_table(remote, local);
    let local_on_remote = make_table(local, remote);
    partition_match_from(local, remote, &remote_on_local, &local_on_remote)
}

} // verus!
