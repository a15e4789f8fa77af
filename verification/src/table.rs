//! Rows of measures under names, brought together by name.

use vstd::prelude::*;

use crate::text::chars_of;

verus! {

/// Text `a`, from its character `i` on, comes before text `b`: at the first
/// character where they differ, or by being shorter.
pub open spec fn before_from(a: Seq<char>, b: Seq<char>, i: int) -> bool
    decreases b.len() - i,
{
    if i < 0 || i >= b.len() {
        false
    } else if i >= a.len() {
        true
    } else if a[i] != b[i] {
        (a[i] as int) < (b[i] as int)
    } else {
        before_from(a, b, i + 1)
    }
}

/// Text `a` comes before text `b` in the order of their characters.
pub open spec fn text_before(a: Seq<char>, b: Seq<char>) -> bool {
    before_from(a, b, 0)
}

fn char_before(x: char, y: char) -> (r: bool)
    ensures
        r == ((x as int) < (y as int)),
{
    (x as u32) < (y as u32)
}

fn comes_before(a: &Vec<char>, b: &Vec<char>) -> (r: bool)
    ensures
        r == text_before(a@, b@),
{
    let mut i: usize = 0;
    while i < b.len()
        invariant
            i <= b@.len(),
            i <= a@.len(),
            before_from(a@, b@, i as int) == text_before(a@, b@),
        decreases b@.len() - i,
    {
        if i >= a.len() {
            return true;
        }
        if a[i] != b[i] {
            return char_before(a[i], b[i]);
        }
        i += 1;
    }
    false
}

/// Of two different texts one comes before the other; none comes before itself.
pub proof fn texts_are_ordered(a: Seq<char>, b: Seq<char>)
    ensures
        !text_before(a, a),
        a != b ==> (text_before(a, b) <==> !text_before(b, a)),
{
    not_before_itself(a, 0);
    if a != b {
        differs_somewhere(a, b, 0);
    }
}

proof fn not_before_itself(a: Seq<char>, i: int)
    requires
        0 <= i,
    ensures
        !before_from(a, a, i),
    decreases a.len() - i,
{
    if i < a.len() {
        not_before_itself(a, i + 1);
    }
}

proof fn differs_somewhere(a: Seq<char>, b: Seq<char>, i: int)
    requires
        a != b,
        0 <= i <= a.len(),
        i <= b.len(),
        forall|k: int| 0 <= k < i ==> a[k] == b[k],
    ensures
        before_from(a, b, i) <==> !before_from(b, a, i),
    decreases a.len() + b.len() - i,
{
    if i == a.len() && i == b.len() {
        assert(a =~= b);
    } else if i < a.len() && i < b.len() && a[i] == b[i] {
        differs_somewhere(a, b, i + 1);
    }
}

/// A row: two names, a count, and four measures.
pub struct Entry {
    pub a: Vec<char>,
    pub b: Vec<char>,
    pub n: usize,
    pub v0: i128,
    pub v1: i128,
    pub v2: i128,
    pub v3: i128,
}

/// A row, its names as characters.
pub struct Row {
    pub a: Seq<char>,
    pub b: Seq<char>,
    pub n: usize,
    pub v0: i128,
    pub v1: i128,
    pub v2: i128,
    pub v3: i128,
}

impl View for Entry {
    type V = Row;

    open spec fn view(&self) -> Row {
        Row {
            a: self.a@,
            b: self.b@,
            n: self.n,
            v0: self.v0,
            v1: self.v1,
            v2: self.v2,
            v3: self.v3,
        }
    }
}

/// The rows of a list.
pub open spec fn rows_of(v: Seq<Entry>) -> Seq<Row> {
    v.map_values(|e: Entry| e@)
}

/// The names of a row.
pub struct Name {
    pub a: Seq<char>,
    pub b: Seq<char>,
}

impl Row {
    pub open spec fn name(self) -> Name {
        Name { a: self.a, b: self.b }
    }

    /// Which of the row's measures.
    pub open spec fn measure(self, which: int) -> i128 {
        if which == 0 {
            self.v0
        } else if which == 1 {
            self.v1
        } else if which == 2 {
            self.v2
        } else {
            self.v3
        }
    }

    pub open spec fn in_range(self) -> bool {
        &&& crate::measure::in_range(self.v0)
        &&& crate::measure::in_range(self.v1)
        &&& crate::measure::in_range(self.v2)
        &&& crate::measure::in_range(self.v3)
    }
}

/// Name `p` comes before name `q`: by its first part, then by its second.
pub open spec fn name_before(p: Name, q: Name) -> bool {
    text_before(p.a, q.a) || (p.a == q.a && text_before(p.b, q.b))
}

/// Where a name belongs among the first `n` names, which ascend: after those that
/// do not come after it.
pub open spec fn name_rank(names: Seq<Name>, q: Name, n: int) -> int
    decreases n,
{
    if n <= 0 {
        0
    } else if name_before(q, names[n - 1]) {
        name_rank(names, q, n - 1)
    } else {
        n
    }
}

/// The names with one more, unless it is there.
pub open spec fn with_name(names: Seq<Name>, q: Name) -> Seq<Name> {
    if names.contains(q) {
        names
    } else {
        names.insert(name_rank(names, q, names.len() as int), q)
    }
}

/// The names of the first `n` rows, in order, each once.
pub open spec fn names_of(rows: Seq<Row>, n: int) -> Seq<Name>
    decreases n,
{
    if n <= 0 {
        Seq::empty()
    } else {
        with_name(names_of(rows, n - 1), rows[n - 1].name())
    }
}

/// Of the first `n` rows, one measure of each that has the name.
pub open spec fn column_of(rows: Seq<Row>, q: Name, which: int, n: int) -> Seq<i128>
    decreases n,
{
    if n <= 0 {
        Seq::empty()
    } else {
        let rest = column_of(rows, q, which, n - 1);
        if rows[n - 1].name() == q {
            rest.push(rows[n - 1].measure(which))
        } else {
            rest
        }
    }
}

/// The count of the last of the first `n` rows that has the name.
pub open spec fn last_count(rows: Seq<Row>, q: Name, n: int) -> usize
    decreases n,
{
    if n <= 0 {
        0
    } else if rows[n - 1].name() == q {
        rows[n - 1].n
    } else {
        last_count(rows, q, n - 1)
    }
}

/// Every row's name is among the names, and no other.
pub proof fn names_are_those_of_the_rows(rows: Seq<Row>, n: int, q: Name)
    requires
        0 <= n <= rows.len(),
    ensures
        names_of(rows, n).contains(q) <==> exists|k: int|
            0 <= k < n && (#[trigger] rows[k]).name() == q,
    decreases n,
{
    if n > 0 {
        let rest = names_of(rows, n - 1);
        let p = rows[n - 1].name();
        names_are_those_of_the_rows(rows, n - 1, q);
        rank_is_there(rest, p, rest.len() as int);
        let r = name_rank(rest, p, rest.len() as int);
        let all = names_of(rows, n);
        if !rest.contains(p) {
            if rest.contains(q) {
                let k = choose|k: int| 0 <= k < rest.len() && rest[k] == q;
                if k < r {
                    assert(all[k] == q);
                } else {
                    assert(all[k + 1] == q);
                }
            }
            assert(all[r] == p);
            if all.contains(q) {
                let k = choose|k: int| 0 <= k < all.len() && all[k] == q;
                if k < r {
                    assert(rest[k] == q);
                } else if k > r {
                    assert(rest[k - 1] == q);
                } else {
                    assert(rows[n - 1].name() == q);
                }
            }
        }
        if p == q {
            assert(rows[n - 1].name() == q);
        }
    }
}

proof fn rank_is_there(names: Seq<Name>, q: Name, n: int)
    requires
        0 <= n <= names.len(),
    ensures
        0 <= name_rank(names, q, n) <= n,
    decreases n,
{
    if n > 0 {
        rank_is_there(names, q, n - 1);
    }
}

/// The names of the rows at `reps`.
pub open spec fn named(rows: Seq<Row>, reps: Seq<usize>) -> Seq<Name> {
    reps.map_values(|k: usize| rows[k as int].name())
}

fn same_chars(a: &Vec<char>, b: &Vec<char>) -> (r: bool)
    ensures
        r == (a@ == b@),
{
    if a.len() != b.len() {
        return false;
    }
    let mut i: usize = 0;
    while i < a.len()
        invariant
            i <= a@.len(),
            a@.len() == b@.len(),
            forall|k: int| 0 <= k < i ==> (#[trigger] a@[k]) == b@[k],
        decreases a@.len() - i,
    {
        if a[i] != b[i] {
            return false;
        }
        i += 1;
    }
    assert(a@ =~= b@);
    true
}

/// Whether two rows have the same name.
pub fn same_name(p: &Entry, q: &Entry) -> (r: bool)
    ensures
        r == (p@.name() == q@.name()),
{
    same_chars(&p.a, &q.a) && same_chars(&p.b, &q.b)
}

fn name_comes_before(p: &Entry, q: &Entry) -> (r: bool)
    ensures
        r == name_before(p@.name(), q@.name()),
{
    comes_before(&p.a, &q.a) || (same_chars(&p.a, &q.a) && comes_before(&p.b, &q.b))
}

fn is_among(v: &Vec<Entry>, reps: &Vec<usize>, k: usize) -> (r: bool)
    requires
        k < v@.len(),
        forall|j: int| 0 <= j < reps@.len() ==> (#[trigger] reps@[j]) < v@.len(),
    ensures
        r == named(rows_of(v@), reps@).contains(rows_of(v@)[k as int].name()),
{
    let ghost names = named(rows_of(v@), reps@);
    let ghost q = rows_of(v@)[k as int].name();
    let mut j: usize = 0;
    while j < reps.len()
        invariant
            j <= reps@.len(),
            k < v@.len(),
            names == named(rows_of(v@), reps@),
            q == rows_of(v@)[k as int].name(),
            forall|j: int| 0 <= j < reps@.len() ==> (#[trigger] reps@[j]) < v@.len(),
            forall|i: int| 0 <= i < j ==> (#[trigger] names[i]) != q,
        decreases reps@.len() - j,
    {
        if same_name(&v[reps[j]], &v[k]) {
            assert(names[j as int] == q);
            return true;
        }
        assert(names[j as int] != q);
        j += 1;
    }
    false
}

/// Rows that stand for the names, in the order of the names.
pub fn name_rows(v: &Vec<Entry>) -> (reps: Vec<usize>)
    ensures
        named(rows_of(v@), reps@) == names_of(rows_of(v@), v@.len() as int),
        forall|j: int| 0 <= j < reps@.len() ==> (#[trigger] reps@[j]) < v@.len(),
{
    let ghost rows = rows_of(v@);
    let mut reps: Vec<usize> = Vec::new();
    let mut k: usize = 0;
    assert(named(rows, reps@) =~= Seq::empty());
    while k < v.len()
        invariant
            k <= v@.len(),
            rows == rows_of(v@),
            named(rows, reps@) == names_of(rows, k as int),
            forall|j: int| 0 <= j < reps@.len() ==> (#[trigger] reps@[j]) < v@.len(),
        decreases v@.len() - k,
    {
        if !is_among(v, &reps, k) {
            let ghost names = named(rows, reps@);
            let ghost q = rows[k as int].name();
            let mut n: usize = reps.len();
            while n > 0 && name_comes_before(&v[k], &v[reps[n - 1]])
                invariant
                    n <= reps@.len(),
                    k < v@.len(),
                    rows == rows_of(v@),
                    names == named(rows, reps@),
                    q == rows[k as int].name(),
                    forall|j: int| 0 <= j < reps@.len() ==> (#[trigger] reps@[j]) < v@.len(),
                    name_rank(names, q, n as int) == name_rank(names, q, names.len() as int),
                decreases n,
            {
                assert(names[n - 1] == rows[reps@[n - 1] as int].name());
                n -= 1;
            }
            proof {
                if n > 0 {
                    assert(names[n - 1] == rows[reps@[n - 1] as int].name());
                }
            }
            let ghost old_reps = reps@;
            reps.insert(n, k);
            proof {
                assert(named(rows, reps@) =~= names.insert(n as int, q));
                assert forall|j: int| 0 <= j < reps@.len() implies (#[trigger] reps@[j]) < v@.len() by {
                    if j < n {
                        assert(reps@[j] == old_reps[j]);
                    } else if j > n {
                        assert(reps@[j] == old_reps[j - 1]);
                    }
                }
            }
        }
        k += 1;
    }
    reps
}

/// One measure of each row that has the name of row `e`.
pub fn column(v: &Vec<Entry>, e: &Entry, which: u8) -> (xs: Vec<i128>)
    requires
        which < 4,
        forall|k: int| 0 <= k < v@.len() ==> (#[trigger] v@[k])@.in_range(),
    ensures
        xs@ == column_of(rows_of(v@), e@.name(), which as int, v@.len() as int),
        xs@.len() <= v@.len(),
        crate::measure::all_in_range(xs@),
{
    let ghost rows = rows_of(v@);
    let mut xs: Vec<i128> = Vec::new();
    let mut k: usize = 0;
    while k < v.len()
        invariant
            k <= v@.len(),
            which < 4,
            rows == rows_of(v@),
            forall|k: int| 0 <= k < v@.len() ==> (#[trigger] v@[k])@.in_range(),
            xs@ == column_of(rows, e@.name(), which as int, k as int),
            xs@.len() <= k,
            crate::measure::all_in_range(xs@),
        decreases v@.len() - k,
    {
        if same_name(&v[k], e) {
            let r = &v[k];
            assert(v@[k as int]@.in_range());
            let m: i128 = if which == 0 {
                r.v0
            } else if which == 1 {
                r.v1
            } else if which == 2 {
                r.v2
            } else {
                r.v3
            };
            xs.push(m);
        }
        k += 1;
    }
    xs
}

/// The count of the last row that has the name of row `e`.
pub fn count_of(v: &Vec<Entry>, e: &Entry) -> (n: usize)
    ensures
        n == last_count(rows_of(v@), e@.name(), v@.len() as int),
{
    let ghost rows = rows_of(v@);
    let mut k: usize = v.len();
    while k > 0
        invariant
            k <= v@.len(),
            rows == rows_of(v@),
            last_count(rows, e@.name(), k as int) == last_count(rows, e@.name(), v@.len() as int),
        decreases k,
    {
        if same_name(&v[k - 1], e) {
            return v[k - 1].n;
        }
        k -= 1;
    }
    0
}

/// A row of four measures under two names.
pub fn entry(a: &str, b: &str, n: usize, v0: i128, v1: i128, v2: i128, v3: i128) -> (e: Entry)
    ensures
        e@ == (Row { a: a@, b: b@, n, v0, v1, v2, v3 }),
{
    Entry { a: chars_of(a), b: chars_of(b), n, v0, v1, v2, v3 }
}

} // verus!
