//! Which environment the server runs in, as a `.env` file names it.
use vstd::prelude::*;

use crate::text::{chars_of, find_char, find_char_in, trim, trim_bounds};

verus! {

/// The key of the environment's name in a `.env` file.
pub open spec fn env_key() -> Seq<char> {
    seq!['R', 'U', 'S', 'T', '_', 'E', 'N', 'V', '=']
}

/// The value of the first line of `s` that, without surrounding blanks, starts
/// with `RUST_ENV=`; the value is what follows, without surrounding blanks.
pub open spec fn env_value(s: Seq<char>) -> Option<Seq<char>>
    decreases s.len(),
{
    let n = find_char(s, '\n');
    let line = trim(s.take(n));
    if line.len() >= 9 && line.take(9) == env_key() {
        Some(trim(line.skip(9)))
    } else if 0 <= n < s.len() {
        env_value(s.skip(n + 1))
    } else {
        None
    }
}

pub struct Environment {}

impl Environment {
    /// The environment that the text of a `.env` file names, if it names one.
    pub fn rust_env_from(content: &str) -> (r: Option<String>)
        ensures
            match r {
                Some(v) => env_value(content@) == Some(v@),
                None => env_value(content@) is None,
            },
    {
        let v = chars_of(content);
        let n = v.len();
        let mut start: usize = 0;
        assert(v@.subrange(0, n as int) =~= v@);
        while start < n
            invariant
                n == v.len(),
                v@ == content@,
                start <= n,
                env_value(content@) == env_value(v@.subrange(start as int, n as int)),
            decreases n - start,
        {
            let ghost s = v@.subrange(start as int, n as int);
            let end = find_char_in(&v, start, n, '\n');
            assert(s.take(end - start) =~= v@.subrange(start as int, end as int));
            let (a, b) = trim_bounds(&v, start, end);
            if b - a >= 9 && v[a] == 'R' && v[a + 1] == 'U' && v[a + 2] == 'S' && v[a + 3] == 'T'
                && v[a + 4] == '_' && v[a + 5] == 'E' && v[a + 6] == 'N' && v[a + 7] == 'V'
                && v[a + 8] == '=' {
                let ghost line = v@.subrange(a as int, b as int);
                assert(line.take(9) =~= env_key());
                assert(line.skip(9) =~= v@.subrange(a + 9, b as int));
                let (c, d) = trim_bounds(&v, a + 9, b);
                return Some(content.substring_char(c, d).to_owned());
            }
            proof {
                let line = v@.subrange(a as int, b as int);
                if line.len() >= 9 && line.take(9) == env_key() {
                    assert(line.take(9)[0] == v@[a as int]);
                    assert(line.take(9)[1] == v@[a + 1]);
                    assert(line.take(9)[2] == v@[a + 2]);
                    assert(line.take(9)[3] == v@[a + 3]);
                    assert(line.take(9)[4] == v@[a + 4]);
                    assert(line.take(9)[5] == v@[a + 5]);
                    assert(line.take(9)[6] == v@[a + 6]);
                    assert(line.take(9)[7] == v@[a + 7]);
                    assert(line.take(9)[8] == v@[a + 8]);
                    assert(false);
                }
            }
            if end == n {
                return None;
            }
            assert(s.skip(end - start + 1) =~= v@.subrange(end + 1, n as int));
            start = end + 1;
        }
        assert(v@.subrange(start as int, n as int) =~= Seq::<char>::empty());
        None
    }
}

} // verus!
