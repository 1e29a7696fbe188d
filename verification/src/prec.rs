//! The session-scoped precedence table: a mapping from a single-character
//! infix operator to its integer binding power (higher binds tighter). It is
//! seeded with defaults, grown by custom-operator declarations, and queried
//! (never shrunk) while climbing binary expressions.

use vstd::prelude::*;

verus! {

/// The first entry for `c` in `s`, front to back.
pub open spec fn find_entry(s: Seq<(char, i32)>, c: char) -> Option<i32>
    decreases s.len(),
{
    if s.len() == 0 {
        None
    } else if s[0].0 == c {
        Some(s[0].1)
    } else {
        find_entry(s.drop_first(), c)
    }
}

/// A precedence table. Its model is the map from operator character to
/// registered precedence.
pub struct PrecTable {
    entries: Vec<(char, i32)>,
}

impl View for PrecTable {
    type V = Map<char, int>;

    closed spec fn view(&self) -> Map<char, int> {
        Map::new(
            |c: char| find_entry(self.entries@, c) is Some,
            |c: char| find_entry(self.entries@, c)->Some_0 as int,
        )
    }
}

proof fn lemma_find_skip(s: Seq<(char, i32)>, c: char, i: int)
    requires
        0 <= i <= s.len(),
        forall|j: int| 0 <= j < i ==> (#[trigger] s[j]).0 != c,
    ensures
        find_entry(s, c) == find_entry(s.subrange(i, s.len() as int), c),
    decreases i,
{
    if i > 0 {
        lemma_find_skip(s.drop_first(), c, i - 1);
        assert(s.drop_first().subrange(i - 1, s.drop_first().len() as int) =~= s.subrange(
            i,
            s.len() as int,
        ));
    } else {
        assert(s.subrange(0, s.len() as int) =~= s);
    }
}

impl PrecTable {
    /// An empty table: no character is a binary operator.
    pub fn new() -> (r: PrecTable)
        ensures
            r@ == Map::<char, int>::empty(),
    {
        let r = PrecTable { entries: Vec::new() };
        proof {
            assert(r@ =~= Map::<char, int>::empty());
        }
        r
    }

    /// A table seeded with the default operators: `=` at 2, `<` at 10,
    /// `+` and `-` at 20, `*` and `/` at 40.
    pub fn with_defaults() -> (r: PrecTable)
        ensures
            r@ == map![
                '=' => 2int,
                '<' => 10int,
                '+' => 20int,
                '-' => 20int,
                '*' => 40int,
                '/' => 40int,
            ],
    {
        let mut r = PrecTable::new();
        r.insert('=', 2);
        r.insert('<', 10);
        r.insert('+', 20);
        r.insert('-', 20);
        r.insert('*', 40);
        r.insert('/', 40);
        proof {
            assert(r@ =~= map![
                '=' => 2int,
                '<' => 10int,
                '+' => 20int,
                '-' => 20int,
                '*' => 40int,
                '/' => 40int,
            ]);
        }
        r
    }

    /// Registers (or overwrites) the precedence of an operator character.
    pub fn insert(&mut self, op: char, prec: i32)
        ensures
            final(self)@ == old(self)@.insert(op, prec as int),
    {
        self.entries.insert(0, (op, prec));
        proof {
            assert(self.entries@.drop_first() =~= old(self).entries@);
            assert(self@ =~= old(self)@.insert(op, prec as int));
        }
    }

    /// The registered precedence of `op`, or `-1` when `op` is not a binary
    /// operator (the sentinel that stops precedence climbing).
    pub fn lookup(&self, op: char) -> (r: i32)
        ensures
            self@.contains_key(op) ==> r == self@[op],
            !self@.contains_key(op) ==> r == -1,
    {
        let ghost s = self.entries@;
        let n = self.entries.len();
        let mut i: usize = 0;
        while i < n
            invariant
                n == s.len(),
                0 <= i <= n,
                s == self.entries@,
                forall|j: int| 0 <= j < i ==> (#[trigger] s[j]).0 != op,
            decreases n - i,
        {
            let e = self.entries[i];
            if e.0 == op {
                proof {
                    lemma_find_skip(s, op, i as int);
                    assert(s.subrange(i as int, s.len() as int)[0] == s[i as int]);
                }
                return e.1;
            }
            i += 1;
        }
        proof {
            lemma_find_skip(s, op, n as int);
        }
        -1
    }
}

} // verus!
