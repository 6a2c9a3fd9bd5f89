//! Deduplication of the arms of a generated `match` expression: arms with
//! the same fields and the same body share one bucket, and the buckets stay
//! ordered by their key, so that regeneration is stable.
use vstd::prelude::*;
use crate::dedent::char_lines;
use crate::text::chars_of;

verus! {

/// The fields and the body of an arm.
pub type ArmKey = (Seq<Seq<char>>, Seq<char>);

/// Lexicographic order of strings, by code point.
pub open spec fn chars_lt(a: Seq<char>, b: Seq<char>) -> bool
    decreases a.len(),
{
    if a.len() == 0 {
        b.len() > 0
    } else if b.len() == 0 {
        false
    } else if a[0] != b[0] {
        a[0] < b[0]
    } else {
        chars_lt(a.drop_first(), b.drop_first())
    }
}

/// Lexicographic order of lists of strings.
pub open spec fn lines_lt(a: Seq<Seq<char>>, b: Seq<Seq<char>>) -> bool
    decreases a.len(),
{
    if a.len() == 0 {
        b.len() > 0
    } else if b.len() == 0 {
        false
    } else if a[0] != b[0] {
        chars_lt(a[0], b[0])
    } else {
        lines_lt(a.drop_first(), b.drop_first())
    }
}

/// Order of arm keys: by fields, then by body.
pub open spec fn key_lt(a: ArmKey, b: ArmKey) -> bool {
    lines_lt(a.0, b.0) || (a.0 == b.0 && chars_lt(a.1, b.1))
}

/// `chars_lt` is a strict total order.
pub proof fn lemma_chars_lt_order(a: Seq<char>, b: Seq<char>, c: Seq<char>)
    ensures
        !chars_lt(a, a),
        a != b ==> chars_lt(a, b) || chars_lt(b, a),
        chars_lt(a, b) && chars_lt(b, c) ==> chars_lt(a, c),
    decreases a.len(),
{
    if a.len() > 0 {
        lemma_chars_lt_order(a.drop_first(), a.drop_first(), a.drop_first());
        if b.len() > 0 {
            if a[0] == b[0] {
                lemma_chars_lt_order(a.drop_first(), b.drop_first(), b.drop_first());
                if a != b {
                    assert(a.drop_first() != b.drop_first()) by {
                        if a.drop_first() == b.drop_first() {
                            assert forall|i: int| 0 <= i < a.len() implies a[i] == b[i] by {
                                if i > 0 {
                                    assert(a[i] == a.drop_first()[i - 1]);
                                    assert(b[i] == b.drop_first()[i - 1]);
                                }
                            }
                            assert(a =~= b);
                        }
                    }
                }
            }
            if c.len() > 0 && a[0] == b[0] && b[0] == c[0] {
                lemma_chars_lt_order(a.drop_first(), b.drop_first(), c.drop_first());
            }
        }
    } else {
        if b.len() == 0 {
            assert(a =~= b);
        }
    }
}

/// `lines_lt` is a strict total order.
pub proof fn lemma_lines_lt_order(a: Seq<Seq<char>>, b: Seq<Seq<char>>, c: Seq<Seq<char>>)
    ensures
        !lines_lt(a, a),
        a != b ==> lines_lt(a, b) || lines_lt(b, a),
        lines_lt(a, b) && lines_lt(b, c) ==> lines_lt(a, c),
    decreases a.len(),
{
    if a.len() > 0 {
        lemma_lines_lt_order(a.drop_first(), a.drop_first(), a.drop_first());
        if b.len() > 0 {
            lemma_chars_lt_order(a[0], b[0], b[0]);
            lemma_chars_lt_order(b[0], a[0], a[0]);
            if a[0] == b[0] {
                lemma_lines_lt_order(a.drop_first(), b.drop_first(), b.drop_first());
                if a != b {
                    assert(a.drop_first() != b.drop_first()) by {
                        if a.drop_first() == b.drop_first() {
                            assert forall|i: int| 0 <= i < a.len() implies a[i] == b[i] by {
                                if i > 0 {
                                    assert(a[i] == a.drop_first()[i - 1]);
                                    assert(b[i] == b.drop_first()[i - 1]);
                                }
                            }
                            assert(a =~= b);
                        }
                    }
                }
            }
            if c.len() > 0 {
                lemma_chars_lt_order(a[0], b[0], c[0]);
                if a[0] == b[0] && b[0] == c[0] {
                    lemma_lines_lt_order(a.drop_first(), b.drop_first(), c.drop_first());
                }
            }
        }
    } else {
        if b.len() == 0 {
            assert(a =~= b);
        }
    }
}

/// `key_lt` is a strict total order.
pub proof fn lemma_key_lt_order(a: ArmKey, b: ArmKey, c: ArmKey)
    ensures
        !key_lt(a, a),
        a != b ==> key_lt(a, b) || key_lt(b, a),
        key_lt(a, b) && key_lt(b, c) ==> key_lt(a, c),
{
    lemma_lines_lt_order(a.0, b.0, c.0);
    lemma_lines_lt_order(b.0, a.0, a.0);
    lemma_lines_lt_order(a.0, a.0, a.0);
    lemma_chars_lt_order(a.1, b.1, c.1);
    lemma_chars_lt_order(b.1, a.1, a.1);
}

proof fn lemma_chars_lt_common_prefix(a: Seq<char>, b: Seq<char>, i: int)
    requires
        0 <= i <= a.len(),
        i <= b.len(),
        forall|j: int| 0 <= j < i ==> a[j] == b[j],
    ensures
        chars_lt(a, b) == chars_lt(a.skip(i), b.skip(i)),
    decreases i,
{
    if i > 0 {
        lemma_chars_lt_common_prefix(a.drop_first(), b.drop_first(), i - 1);
        assert(a.drop_first().skip(i - 1) =~= a.skip(i));
        assert(b.drop_first().skip(i - 1) =~= b.skip(i));
    } else {
        assert(a.skip(0) =~= a);
        assert(b.skip(0) =~= b);
    }
}

proof fn lemma_lines_lt_common_prefix(a: Seq<Seq<char>>, b: Seq<Seq<char>>, i: int)
    requires
        0 <= i <= a.len(),
        i <= b.len(),
        forall|j: int| 0 <= j < i ==> a[j] == b[j],
    ensures
        lines_lt(a, b) == lines_lt(a.skip(i), b.skip(i)),
    decreases i,
{
    if i > 0 {
        lemma_lines_lt_common_prefix(a.drop_first(), b.drop_first(), i - 1);
        assert(a.drop_first().skip(i - 1) =~= a.skip(i));
        assert(b.drop_first().skip(i - 1) =~= b.skip(i));
    } else {
        assert(a.skip(0) =~= a);
        assert(b.skip(0) =~= b);
    }
}

/// Compares two strings: negative, zero or positive as `a` comes before,
/// equals or comes after `b`.
fn cmp_chars(a: &Vec<char>, b: &Vec<char>) -> (r: i8)
    ensures
        (r < 0) == chars_lt(a@, b@),
        (r == 0) == (a@ == b@),
        (r > 0) == chars_lt(b@, a@),
{
    let mut i: usize = 0;
    while i < a.len() && i < b.len() && a[i] == b[i]
        invariant
            i <= a.len(),
            i <= b.len(),
            forall|j: int| 0 <= j < i ==> a@[j] == b@[j],
        decreases a.len() - i,
    {
        i = i + 1;
    }
    proof {
        lemma_chars_lt_common_prefix(a@, b@, i as int);
        lemma_chars_lt_common_prefix(b@, a@, i as int);
        lemma_chars_lt_order(a@, b@, b@);
        lemma_chars_lt_order(b@, a@, a@);
        if i < a.len() && i < b.len() {
            assert(a@.skip(i as int)[0] == a@[i as int]);
            assert(b@.skip(i as int)[0] == b@[i as int]);
            assert(a@ != b@);
        } else if i == a.len() && i == b.len() {
            assert(a@ =~= b@);
        } else {
            assert(a@.len() != b@.len());
        }
    }
    if i == a.len() && i == b.len() {
        0
    } else if i == a.len() {
        -1
    } else if i == b.len() {
        1
    } else if a[i] < b[i] {
        -1
    } else {
        1
    }
}

/// Compares two lists of strings, lexicographically.
fn cmp_lines(a: &Vec<Vec<char>>, b: &Vec<Vec<char>>) -> (r: i8)
    ensures
        (r < 0) == lines_lt(char_lines(a@), char_lines(b@)),
        (r == 0) == (char_lines(a@) == char_lines(b@)),
        (r > 0) == lines_lt(char_lines(b@), char_lines(a@)),
{
    let ghost la = char_lines(a@);
    let ghost lb = char_lines(b@);
    let mut i: usize = 0;
    while i < a.len() && i < b.len() && cmp_chars(&a[i], &b[i]) == 0
        invariant
            la == char_lines(a@),
            lb == char_lines(b@),
            i <= a.len(),
            i <= b.len(),
            forall|j: int| 0 <= j < i ==> la[j] == lb[j],
        decreases a.len() - i,
    {
        i = i + 1;
    }
    proof {
        lemma_lines_lt_common_prefix(la, lb, i as int);
        lemma_lines_lt_common_prefix(lb, la, i as int);
        lemma_lines_lt_order(la, lb, lb);
        lemma_lines_lt_order(lb, la, la);
    }
    if i < a.len() && i < b.len() {
        let c = cmp_chars(&a[i], &b[i]);
        proof {
            assert(la.skip(i as int)[0] == la[i as int]);
            assert(lb.skip(i as int)[0] == lb[i as int]);
            assert(la[i as int] != lb[i as int]);
            assert(la != lb);
        }
        c
    } else if i == a.len() && i == b.len() {
        assert(la =~= lb);
        0
    } else if i == a.len() {
        assert(la.len() != lb.len());
        -1
    } else {
        assert(la.len() != lb.len());
        1
    }
}

/// The key of the arm with these fields and this body.
pub open spec fn arm_key(fields: Seq<&str>, body: Seq<char>) -> ArmKey {
    (fields.map_values(|f: &str| f@), body)
}

/// One bucket of a match: the fields and body that its arms share, and the
/// names of the variants that take it.
pub struct MatchArm {
    fields: Vec<Vec<char>>,
    body: Vec<char>,
    names: Vec<Vec<char>>,
}

impl MatchArm {
    pub closed spec fn key(&self) -> ArmKey {
        (char_lines(self.fields@), self.body@)
    }

    pub closed spec fn names(&self) -> Set<Seq<char>> {
        char_lines(self.names@).to_set()
    }
}

/// Match formatting class.
///
/// Match objects collect all the information needed to emit a Rust `match`
/// expression, automatically deduplicating overlapping identical arms.
///
/// Note that this class is ignorant of Rust types, and considers two fields
/// with the same name to be equivalent.
pub struct _Match {
    expr: String,
    arms: Vec<MatchArm>,
}

impl _Match {
    /// The buckets, each with its key and the names that share it.
    pub closed spec fn buckets(&self) -> Seq<(ArmKey, Set<Seq<char>>)> {
        self.arms@.map_values(|a: MatchArm| (a.key(), a.names()))
    }

    /// The expression that is matched on.
    pub closed spec fn expr(&self) -> Seq<char> {
        self.expr@
    }

    /// The buckets are in strictly increasing order of their keys.
    pub open spec fn wf(&self) -> bool {
        forall|i: int, j: int|
            0 <= i < j < self.buckets().len() ==> key_lt(
                #[trigger] self.buckets()[i].0,
                #[trigger] self.buckets()[j].0,
            )
    }

    /// Create a new match statement on `expr`.
    pub fn _new(expr: &str) -> (r: Self)
        ensures
            r.wf(),
            r.expr() == expr@,
            r.buckets() == Seq::<(ArmKey, Set<Seq<char>>)>::empty(),
    {
        let r = Self { expr: String::from_str(expr), arms: Vec::new() };
        assert(r.buckets() =~= Seq::<(ArmKey, Set<Seq<char>>)>::empty());
        r
    }

    /// Number of distinct arms.
    pub fn arm_count(&self) -> (r: usize)
        ensures
            r == self.buckets().len(),
    {
        self.arms.len()
    }

    /// Add an arm to the Match statement: `name` joins the bucket of `fields`
    /// and `body`, which is made if there is none yet.
    pub fn _arm(&mut self, name: &str, fields: Vec<&str>, body: &str)
        requires
            old(self).wf(),
        ensures
            final(self).wf(),
            final(self).expr() == old(self).expr(),
            ({
                let k = arm_key(fields@, body@);
                let b = old(self).buckets();
                if exists|i: int| 0 <= i < b.len() && b[i].0 == k {
                    exists|i: int|
                        0 <= i < b.len() && b[i].0 == k && final(self).buckets() == b.update(
                            i,
                            (k, b[i].1.insert(name@)),
                        )
                } else {
                    exists|i: int|
                        0 <= i <= b.len() && final(self).buckets() == b.insert(
                            i,
                            (k, set![name@]),
                        )
                }
            }),
    {
        let ghost k = arm_key(fields@, body@);
        let ghost b = self.buckets();
        let mut key_fields: Vec<Vec<char>> = Vec::new();
        let mut i: usize = 0;
        while i < fields.len()
            invariant
                i <= fields.len(),
                char_lines(key_fields@) == fields@.subrange(0, i as int).map_values(
                    |f: &str| f@,
                ),
            decreases fields.len() - i,
        {
            let f = chars_of(fields[i]);
            let ghost before = key_fields@;
            let ghost fv = f@;
            key_fields.push(f);
            i = i + 1;
            assert(char_lines(key_fields@) =~= char_lines(before).push(fv));
            assert(char_lines(key_fields@) =~= fields@.subrange(0, i as int).map_values(
                |f: &str| f@,
            ));
        }
        assert(fields@.subrange(0, i as int) =~= fields@);
        let key_body = chars_of(body);
        let name_chars = chars_of(name);
        assert(k == (char_lines(key_fields@), key_body@));

        // Find the first bucket whose key is not below the new one.
        let mut p: usize = 0;
        while p < self.arms.len() && cmp_arm(&self.arms[p], &key_fields, &key_body) < 0
            invariant
                p <= self.arms.len(),
                b == self.buckets(),
                self.wf(),
                k == (char_lines(key_fields@), key_body@),
                forall|j: int| 0 <= j < p ==> key_lt(#[trigger] b[j].0, k),
            decreases self.arms.len() - p,
        {
            p = p + 1;
        }
        let found = p < self.arms.len() && cmp_arm(&self.arms[p], &key_fields, &key_body) == 0;
        proof {
            assert forall|j: int| p <= j < b.len() && !found implies key_lt(k, #[trigger] b[j].0) by {
                lemma_key_lt_order(k, b[p as int].0, b[j].0);
                lemma_key_lt_order(b[p as int].0, k, k);
            }
            assert forall|j: int| 0 <= j < b.len() && j != p implies #[trigger] b[j].0 != k by {
                lemma_key_lt_order(k, k, k);
                if j > p {
                    lemma_key_lt_order(k, b[p as int].0, b[j].0);
                    lemma_key_lt_order(b[p as int].0, k, k);
                }
            }
        }
        if found {
            let mut arm = self.arms.remove(p);
            let ghost old_names = char_lines(arm.names@);
            if !contains_chars(&arm.names, &name_chars) {
                arm.names.push(name_chars);
                assert(char_lines(arm.names@) =~= old_names.push(name@));
                proof {
                    old_names.lemma_push_to_set_commute(name@);
                }
            } else {
                assert(old_names.to_set() =~= old_names.to_set().insert(name@));
            }
            self.arms.insert(p, arm);
            assert(self.buckets() =~= b.update(p as int, (k, b[p as int].1.insert(name@))));
        } else {
            let mut names: Vec<Vec<char>> = Vec::new();
            names.push(name_chars);
            let arm = MatchArm { fields: key_fields, body: key_body, names };
            assert(arm.names() =~= set![name@]) by {
                let e = Seq::<Seq<char>>::empty();
                assert(char_lines(arm.names@) =~= e.push(name@));
                e.lemma_push_to_set_commute(name@);
                assert(e.to_set() =~= Set::<Seq<char>>::empty());
            }
            self.arms.insert(p, arm);
            assert(self.buckets() =~= b.insert(p as int, (k, set![name@])));
            assert(forall|j: int| 0 <= j < b.len() ==> #[trigger] b[j].0 != k);
        }
    }
}

/// Compares the key of `arm` with the key of `fields` and `body`.
fn cmp_arm(arm: &MatchArm, fields: &Vec<Vec<char>>, body: &Vec<char>) -> (r: i8)
    ensures
        (r < 0) == key_lt(arm.key(), (char_lines(fields@), body@)),
        (r == 0) == (arm.key() == (char_lines(fields@), body@)),
{
    let c = cmp_lines(&arm.fields, fields);
    if c != 0 {
        proof {
            lemma_lines_lt_order(char_lines(arm.fields@), char_lines(fields@), char_lines(fields@));
        }
        c
    } else {
        cmp_chars(&arm.body, body)
    }
}

/// Whether `names` holds `name`.
fn contains_chars(names: &Vec<Vec<char>>, name: &Vec<char>) -> (r: bool)
    ensures
        r == char_lines(names@).contains(name@),
{
    let mut i: usize = 0;
    while i < names.len()
        invariant
            i <= names.len(),
            forall|j: int| 0 <= j < i ==> names@[j]@ != name@,
        decreases names.len() - i,
    {
        if cmp_chars(&names[i], name) == 0 {
            assert(char_lines(names@)[i as int] == name@);
            return true;
        }
        i = i + 1;
    }
    assert forall|j: int| 0 <= j < char_lines(names@).len() implies char_lines(names@)[j] != name@ by {
        assert(char_lines(names@)[j] == names@[j]@);
    }
    false
}

} // verus!
