use vstd::prelude::*;
use vstd::string::StrSliceExecFns;
use vstd::utf8::encode_utf8;

verus! {

broadcast use vstd::seq_lib::group_to_multiset_ensures;

/// One entry of a directory: its file name, its path, and whether it is a
/// regular file.
pub struct DirEntry {
    pub name: String,
    pub path: String,
    pub is_file: bool,
}

/// Whether a file name is hidden: it starts with a dot.
pub open spec fn is_hidden(name: Seq<char>) -> bool {
    name.len() > 0 && name[0] == '.'
}

/// Whether an entry is listed: a regular file whose name is not hidden.
pub open spec fn is_listed(entry: DirEntry) -> bool {
    entry.is_file && !is_hidden(entry.name@)
}

/// The (name, path) pairs of the listed entries, in the order given.
pub open spec fn listed(entries: Seq<DirEntry>) -> Seq<(String, String)> {
    entries.filter_map(
        |entry: DirEntry|
            if is_listed(entry) {
                Some((entry.name, entry.path))
            } else {
                None
            },
    )
}

/// Strict lexicographic order on byte strings.
pub open spec fn bytes_lt(a: Seq<u8>, b: Seq<u8>) -> bool
    decreases a.len(),
{
    if b.len() == 0 {
        false
    } else if a.len() == 0 {
        true
    } else if a[0] != b[0] {
        a[0] < b[0]
    } else {
        bytes_lt(a.drop_first(), b.drop_first())
    }
}

/// Strings order as their UTF-8 bytes do.
pub open spec fn str_lt(a: Seq<char>, b: Seq<char>) -> bool {
    bytes_lt(encode_utf8(a), encode_utf8(b))
}

/// (name, path) pairs order by name, then by path.
pub open spec fn pair_lt(x: (String, String), y: (String, String)) -> bool {
    str_lt(x.0@, y.0@) || (x.0@ == y.0@ && str_lt(x.1@, y.1@))
}

/// Whether no pair of `s` is less than one before it.
pub open spec fn sorted_pairs(s: Seq<(String, String)>) -> bool {
    forall|i: int, j: int| 0 <= i < j < s.len() ==> !pair_lt(#[trigger] s[j], #[trigger] s[i])
}

/// The pairs made of `names` and `paths`, position by position.
pub open spec fn zipped(names: Seq<String>, paths: Seq<String>) -> Seq<(String, String)> {
    Seq::new(names.len(), |i: int| (names[i], paths[i]))
}

proof fn lemma_bytes_lt_transitive(a: Seq<u8>, b: Seq<u8>, c: Seq<u8>)
    requires
        bytes_lt(a, b),
        bytes_lt(b, c),
    ensures
        bytes_lt(a, c),
    decreases a.len(),
{
    if a.len() > 0 && a[0] == b[0] && b[0] == c[0] {
        lemma_bytes_lt_transitive(a.drop_first(), b.drop_first(), c.drop_first());
    }
}

proof fn lemma_bytes_lt_irreflexive(a: Seq<u8>)
    ensures
        !bytes_lt(a, a),
    decreases a.len(),
{
    if a.len() > 0 {
        lemma_bytes_lt_irreflexive(a.drop_first());
    }
}

proof fn lemma_pair_lt_irreflexive(x: (String, String))
    ensures
        !pair_lt(x, x),
{
    lemma_bytes_lt_irreflexive(encode_utf8(x.0@));
    lemma_bytes_lt_irreflexive(encode_utf8(x.1@));
}

proof fn lemma_pair_lt_transitive(x: (String, String), y: (String, String), z: (String, String))
    requires
        pair_lt(x, y),
        pair_lt(y, z),
    ensures
        pair_lt(x, z),
{
    if str_lt(x.0@, y.0@) && str_lt(y.0@, z.0@) {
        lemma_bytes_lt_transitive(encode_utf8(x.0@), encode_utf8(y.0@), encode_utf8(z.0@));
    }
    if x.0@ == y.0@ && y.0@ == z.0@ && str_lt(x.1@, y.1@) && str_lt(y.1@, z.1@) {
        lemma_bytes_lt_transitive(encode_utf8(x.1@), encode_utf8(y.1@), encode_utf8(z.1@));
    }
}

fn bytes_less(a: &[u8], b: &[u8]) -> (r: bool)
    ensures
        r == bytes_lt(a@, b@),
{
    let mut i: usize = 0;
    assert(a@.subrange(0, a@.len() as int) =~= a@);
    assert(b@.subrange(0, b@.len() as int) =~= b@);
    while i < a.len() && i < b.len() && a[i] == b[i]
        invariant
            i <= a.len(),
            i <= b.len(),
            bytes_lt(a@, b@) == bytes_lt(
                a@.subrange(i as int, a@.len() as int),
                b@.subrange(i as int, b@.len() as int),
            ),
        decreases a.len() - i,
    {
        assert(a@.subrange(i as int, a@.len() as int).drop_first() =~= a@.subrange(
            i + 1,
            a@.len() as int,
        ));
        assert(b@.subrange(i as int, b@.len() as int).drop_first() =~= b@.subrange(
            i + 1,
            b@.len() as int,
        ));
        i += 1;
    }
    i < b.len() && (i == a.len() || a[i] < b[i])
}

fn str_less(a: &String, b: &String) -> (r: bool)
    ensures
        r == str_lt(a@, b@),
{
    bytes_less(a.as_str().as_bytes(), b.as_str().as_bytes())
}

fn pair_less(x: &(String, String), y: &(String, String)) -> (r: bool)
    ensures
        r == pair_lt(*x, *y),
{
    str_less(&x.0, &y.0) || (x.0 == y.0 && str_less(&x.1, &y.1))
}

/// The pairs of `v`, sorted by name and then by path.
fn sort_pairs(v: Vec<(String, String)>) -> (r: Vec<(String, String)>)
    ensures
        r@.to_multiset() == v@.to_multiset(),
        sorted_pairs(r@),
{
    let ghost all = v@;
    let mut rest = v;
    let mut r: Vec<(String, String)> = Vec::new();
    while rest.len() > 0
        invariant
            r@.to_multiset().add(rest@.to_multiset()) == all.to_multiset(),
            sorted_pairs(r@),
            forall|i: int, k: int|
                0 <= i < r.len() && 0 <= k < rest.len() ==> !pair_lt(
                    #[trigger] rest@[k],
                    #[trigger] r@[i],
                ),
        decreases rest.len(),
    {
        let mut m: usize = 0;
        let mut k: usize = 1;
        proof {
            lemma_pair_lt_irreflexive(rest@[0]);
        }
        while k < rest.len()
            invariant
                m < rest.len(),
                k <= rest.len(),
                forall|j: int| 0 <= j < k ==> !pair_lt(#[trigger] rest@[j], rest@[m as int]),
            decreases rest.len() - k,
        {
            if pair_less(&rest[k], &rest[m]) {
                proof {
                    assert forall|j: int| 0 <= j < k implies !pair_lt(
                        #[trigger] rest@[j],
                        rest@[k as int],
                    ) by {
                        if pair_lt(rest@[j], rest@[k as int]) {
                            lemma_pair_lt_transitive(rest@[j], rest@[k as int], rest@[m as int]);
                        }
                    }
                }
                proof {
                    lemma_pair_lt_irreflexive(rest@[k as int]);
                }
                m = k;
            }
            k += 1;
        }
        let ghost before_rest = rest@;
        let ghost before_r = r@;
        let x = rest.remove(m);
        assert(before_rest.remove(m as int) == rest@);
        assert(forall|j: int|
            0 <= j < rest.len() ==> #[trigger] rest@[j] == before_rest[if j < m {
                j
            } else {
                j + 1
            }]);
        r.push(x);
        assert(r@ == before_r.push(x));
        assert(r@.to_multiset().add(rest@.to_multiset()) =~= all.to_multiset());
    }
    r
}

/// Whether a file name starts with a dot.
fn hidden(name: &String) -> (r: bool)
    ensures
        r == is_hidden(name@),
{
    let s = name.as_str();
    s.unicode_len() > 0 && s.get_char(0) == '.'
}

/// The regular files among the entries of a directory, leaving out hidden
/// ones, sorted by name and then by path: their names, and their paths in
/// the same order.
pub fn enumerate_files_paths(entries: Vec<DirEntry>) -> (r: (Vec<String>, Vec<String>))
    ensures
        r.0.len() == r.1.len(),
        zipped(r.0@, r.1@).to_multiset() == listed(entries@).to_multiset(),
        sorted_pairs(zipped(r.0@, r.1@)),
{
    let ghost all = entries@;
    let mut kept: Vec<(String, String)> = Vec::new();
    for entry in it: entries
        invariant
            it.seq() == all,
            kept@ == listed(all.subrange(0, it.index() as int)),
    {
        assert(all.subrange(0, it.index() + 1).drop_last() =~= all.subrange(0, it.index() as int));
        assert(all.subrange(0, it.index() + 1).last() == entry);
        if entry.is_file && !hidden(&entry.name) {
            kept.push((entry.name, entry.path));
        }
    }
    assert(all.subrange(0, all.len() as int) =~= all);
    let sorted = sort_pairs(kept);
    let mut names: Vec<String> = Vec::new();
    let mut paths: Vec<String> = Vec::new();
    for pair in it: sorted
        invariant
            it.seq() == sorted@,
            names.len() == it.index(),
            paths.len() == it.index(),
            zipped(names@, paths@) =~= sorted@.subrange(0, it.index() as int),
    {
        let (name, path) = pair;
        names.push(name);
        paths.push(path);
    }
    assert(sorted@.subrange(0, sorted@.len() as int) =~= sorted@);
    (names, paths)
}

/// Whether `s[i..j]` is what is left of `s` once its leading and then its
/// trailing double quotes are taken off.
pub open spec fn unquoted_range(s: Seq<char>, i: int, j: int) -> bool {
    &&& 0 <= i <= j <= s.len()
    &&& forall|k: int| 0 <= k < i ==> s[k] == '"'
    &&& i < s.len() ==> s[i] != '"'
    &&& forall|k: int| j <= k < s.len() ==> s[k] == '"'
    &&& i < j ==> s[j - 1] != '"'
}

/// The path that a quoted path argument names: the argument without its
/// leading and trailing double quotes.
pub fn read_path_argument(argument: &str) -> (r: String)
    ensures
        exists|i: int, j: int|
            unquoted_range(argument@, i, j) && r@ == #[trigger] argument@.subrange(i, j),
{
    let n = argument.unicode_len();
    let mut i: usize = 0;
    while i < n && argument.get_char(i) == '"'
        invariant
            n == argument@.len(),
            i <= n,
            forall|k: int| 0 <= k < i ==> argument@[k] == '"',
        decreases n - i,
    {
        i += 1;
    }
    let mut j: usize = n;
    while j > i && argument.get_char(j - 1) == '"'
        invariant
            n == argument@.len(),
            i <= j <= n,
            forall|k: int| j <= k < n ==> argument@[k] == '"',
        decreases j,
    {
        j -= 1;
    }
    let r = argument.substring_char(i, j).to_owned();
    assert(unquoted_range(argument@, i as int, j as int));
    r
}

} // verus!
