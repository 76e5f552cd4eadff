//! Record identifiers: a table name plus a record key.

use vstd::prelude::*;
use crate::error::ApplicationError;

verus! {

/// Compares two string slices by their character sequences.
pub fn str_eq(a: &str, b: &str) -> (r: bool)
    ensures
        r == (a@ == b@),
{
    let left: String = a.to_owned();
    let right: String = b.to_owned();
    left == right
}

/// Identifier of a stored record: the table it lives in and its key
/// within that table.
#[derive(Debug, PartialEq)]
pub struct Id {
    pub table: String,
    pub id: String,
}

/// Holds when `i` is the position of the first colon in `s`.
pub open spec fn is_first_colon(s: Seq<char>, i: int) -> bool {
    &&& 0 <= i < s.len()
    &&& s[i] == ':'
    &&& forall|j: int| 0 <= j < i ==> s[j] != ':'
}

/// Holds when `j` bounds the colon-free segment that starts at `i`:
/// either `j` is the next colon after `i`, or the end of the string.
pub open spec fn is_segment_end(s: Seq<char>, i: int, j: int) -> bool {
    &&& i <= j <= s.len()
    &&& j == s.len() || s[j] == ':'
    &&& forall|k: int| i <= k < j ==> s[k] != ':'
}

/// Whether the string holds a colon at all.
pub open spec fn has_colon(s: Seq<char>) -> bool {
    exists|i: int| is_first_colon(s, i)
}

/// The record key that parsing a `table:key` string under a forced
/// table name yields: the part between the first colon and the next
/// colon or the end, provided the part before the first colon is the
/// forced table name.
pub open spec fn parse_key(force: Seq<char>, s: Seq<char>) -> Option<Seq<char>> {
    if has_colon(s) {
        let i = choose|i: int| is_first_colon(s, i);
        if s.subrange(0, i) == force && exists|j: int| #[trigger] is_segment_end(s, i + 1, j) {
            let j = choose|j: int| #[trigger] is_segment_end(s, i + 1, j);
            Some(s.subrange(i + 1, j))
        } else {
            None
        }
    } else {
        None
    }
}

/// Two positions of a first colon are the same position.
pub proof fn lemma_first_colon_unique(s: Seq<char>, i: int, j: int)
    requires
        is_first_colon(s, i),
        is_first_colon(s, j),
    ensures
        i == j,
{
    if i < j {
        assert(s[i] != ':');
    } else if j < i {
        assert(s[j] != ':');
    }
}

/// Two ends of the segment that starts at `i` are the same position.
pub proof fn lemma_segment_end_unique(s: Seq<char>, i: int, j1: int, j2: int)
    requires
        is_segment_end(s, i, j1),
        is_segment_end(s, i, j2),
    ensures
        j1 == j2,
{
    if j1 < j2 {
        assert(s[j1] != ':');
    } else if j2 < j1 {
        assert(s[j2] != ':');
    }
}

impl Clone for Id {
    fn clone(&self) -> (r: Id)
        ensures
            r == *self,
    {
        Id { table: self.table.clone(), id: self.id.clone() }
    }
}

impl Id {
    /// Builds an identifier from a table name and a record key.
    pub fn new(pair: (&str, &str)) -> (r: Id)
        ensures
            r.table@ == pair.0@,
            r.id@ == pair.1@,
    {
        Id { table: pair.0.to_owned(), id: pair.1.to_owned() }
    }

    /// Renders the identifier as `table:key`.
    pub fn to_string(&self) -> (r: String)
        ensures
            r@ == self.table@ + ":"@ + self.id@,
    {
        let mut out = self.table.clone();
        out.append(":");
        out.append(self.id.as_str());
        out
    }

    /// Parses a `table:key` string, accepting only the forced table name.
    ///
    /// A string without a colon is malformed; a different table name in
    /// front of the colon is rejected as unauthorized, so that a client
    /// cannot address an arbitrary table.  The key runs from the first
    /// colon to the next colon or the end, as the stored form never
    /// carries a colon inside the key.
    pub fn try_from(pair: (&str, &str)) -> (r: Result<Id, ApplicationError>)
        ensures
            (r is Ok) == (parse_key(pair.0@, pair.1@) is Some),
            r matches Ok(id) ==> id.table@ == pair.0@ && Some(id.id@) == parse_key(
                pair.0@,
                pair.1@,
            ),
            !has_colon(pair.1@) ==> (r matches Err(ApplicationError::BadRequest(m)) && m@
                == "invalid id"@),
            has_colon(pair.1@) && parse_key(pair.0@, pair.1@) is None ==> r matches Err(
                ApplicationError::Unauthorized,
            ),
    {
        let (force, raw) = pair;
        let n = raw.unicode_len();
        let mut i: usize = 0;
        while i < n && raw.get_char(i) != ':'
            invariant
                0 <= i <= n,
                n == raw@.len(),
                forall|j: int| 0 <= j < i ==> raw@[j] != ':',
            decreases n - i,
        {
            i = i + 1;
        }
        if i == n {
            proof {
                assert(forall|k: int| is_first_colon(raw@, k) ==> raw@[k] != ':');
            }
            return Err(ApplicationError::BadRequest("invalid id".to_owned()));
        }
        proof {
            assert(is_first_colon(raw@, i as int));
            let w = choose|k: int| is_first_colon(raw@, k);
            lemma_first_colon_unique(raw@, w, i as int);
        }
        let table = raw.substring_char(0, i);
        if !str_eq(table, force) {
            return Err(ApplicationError::Unauthorized);
        }
        let mut j: usize = i + 1;
        while j < n && raw.get_char(j) != ':'
            invariant
                i + 1 <= j <= n,
                n == raw@.len(),
                forall|k: int| i + 1 <= k < j ==> raw@[k] != ':',
            decreases n - j,
        {
            j = j + 1;
        }
        let key = raw.substring_char(i + 1, j);
        proof {
            assert(is_segment_end(raw@, i as int + 1, j as int));
            let w = choose|k: int| #[trigger] is_segment_end(raw@, i as int + 1, k);
            lemma_segment_end_unique(raw@, i as int + 1, w, j as int);
        }
        Ok(Id { table: table.to_owned(), id: key.to_owned() })
    }
}

} // verus!
