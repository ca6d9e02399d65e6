//! Validation of operator-supplied identifiers: bucket names and `KEY=value`
//! tag arguments.

use vstd::prelude::*;

verus! {

/// A character allowed in a bucket name: a lowercase ASCII letter, an ASCII
/// digit, `.` or `-`.
pub open spec fn is_allowed_bucket_char(c: char) -> bool {
    ||| 'a' as u32 <= c as u32 && c as u32 <= 'z' as u32
    ||| '0' as u32 <= c as u32 && c as u32 <= '9' as u32
    ||| c == '.'
    ||| c == '-'
}

/// A character that may not stand at either end of a bucket name.
pub open spec fn is_edge_char(c: char) -> bool {
    c == '.' || c == '-'
}

/// A bucket name is valid when it is 3 to 63 characters long, holds only
/// lowercase ASCII letters, digits, `.` and `-`, and neither starts nor ends
/// with `.` or `-`.
pub open spec fn is_valid_bucket_name(s: Seq<char>) -> bool {
    &&& 3 <= s.len() <= 63
    &&& forall|i: int| 0 <= i < s.len() ==> is_allowed_bucket_char(#[trigger] s[i])
    &&& !is_edge_char(s[0])
    &&& !is_edge_char(s[s.len() - 1])
}

/// The reason a bucket name was rejected. The checks are applied in this
/// order: length first, then the character set, then the edge characters.
#[derive(Clone, Copy, Debug, PartialEq, Eq, Structural)]
pub enum BucketNameError {
    /// The name is shorter than 3 or longer than 63 characters.
    Length,
    /// The name holds a character outside lowercase letters, digits, `.`, `-`.
    Charset,
    /// The name starts or ends with `.` or `-`.
    Edge,
}

impl BucketNameError {
    /// A human-readable description of the rejection.
    pub fn message(&self) -> (r: String)
        ensures
            self is Length ==> r@ == "Bucket name must be between 3 and 63 characters"@,
            self is Charset ==> r@
                == "Bucket name must only contain lowercase letters, numbers, dots, and hyphens"@,
            self is Edge ==> r@ == "Bucket name must begin and end with a letter or number"@,
    {
        match self {
            BucketNameError::Length => "Bucket name must be between 3 and 63 characters".to_owned(),
            BucketNameError::Charset => {
                "Bucket name must only contain lowercase letters, numbers, dots, and hyphens".to_owned()
            },
            BucketNameError::Edge => {
                "Bucket name must begin and end with a letter or number".to_owned()
            },
        }
    }
}

/// Checks the bucket-name invariant: succeeds exactly on valid names, and
/// reports the first failing check otherwise.
pub fn validate_bucket_name(name: &str) -> (r: Result<(), BucketNameError>)
    ensures
        r is Ok <==> is_valid_bucket_name(name@),
        r == Err::<(), BucketNameError>(BucketNameError::Length) <==> !(3 <= name@.len() <= 63),
        r == Err::<(), BucketNameError>(BucketNameError::Charset) <==> {
            &&& 3 <= name@.len() <= 63
            &&& exists|i: int| 0 <= i < name@.len() && !is_allowed_bucket_char(#[trigger] name@[i])
        },
        r == Err::<(), BucketNameError>(BucketNameError::Edge) <==> {
            &&& 3 <= name@.len() <= 63
            &&& forall|i: int| 0 <= i < name@.len() ==> is_allowed_bucket_char(#[trigger] name@[i])
            &&& (is_edge_char(name@[0]) || is_edge_char(name@[name@.len() - 1]))
        },
{
    let len = name.unicode_len();
    if len < 3 || len > 63 {
        return Err(BucketNameError::Length);
    }
    let mut i: usize = 0;
    while i < len
        invariant
            len == name@.len(),
            3 <= len <= 63,
            i <= len,
            forall|j: int| 0 <= j < i ==> is_allowed_bucket_char(#[trigger] name@[j]),
        decreases len - i,
    {
        let c = name.get_char(i);
        let u = c as u32;
        if !((97 <= u && u <= 122) || (48 <= u && u <= 57) || c == '.' || c == '-') {
            return Err(BucketNameError::Charset);
        }
        i += 1;
    }
    let first = name.get_char(0);
    let last = name.get_char(len - 1);
    if first == '.' || first == '-' || last == '.' || last == '-' {
        return Err(BucketNameError::Edge);
    }
    Ok(())
}

/// The index of the first occurrence of `c` in `s` at or after `i`, if any.
pub open spec fn spec_find(s: Seq<char>, c: char, i: int) -> Option<int>
    decreases s.len() - i when 0 <= i
{
    if i >= s.len() {
        None
    } else if s[i] == c {
        Some(i)
    } else {
        spec_find(s, c, i + 1)
    }
}

/// A `KEY=value` argument without a `=`; holds the offending argument.
#[derive(Debug)]
pub struct KeyValError {
    pub arg: String,
}

impl KeyValError {
    /// A human-readable description of the rejection.
    pub fn message(&self) -> (r: String)
        ensures
            r@ == "invalid KEY=value: no `=` found in `"@ + self.arg@ + "`"@,
    {
        "invalid KEY=value: no `=` found in `".to_owned().concat(self.arg.as_str()).concat("`")
    }
}

/// Splits a `KEY=value` argument at its first `=`. Fails exactly when the
/// argument holds no `=`.
pub fn parse_key_val(s: &str) -> (r: Result<(String, String), KeyValError>)
    ensures
        r is Ok <==> spec_find(s@, '=', 0) is Some,
        r matches Ok(kv) ==> {
            &&& spec_find(s@, '=', 0) matches Some(p)
            &&& kv.0@ == s@.subrange(0, spec_find(s@, '=', 0)->0)
            &&& kv.1@ == s@.subrange(spec_find(s@, '=', 0)->0 + 1, s@.len() as int)
        },
        r matches Err(e) ==> e.arg@ == s@,
{
    let len = s.unicode_len();
    let mut i: usize = 0;
    while i < len
        invariant
            len == s@.len(),
            i <= len,
            spec_find(s@, '=', 0) == spec_find(s@, '=', i as int),
        decreases len - i,
    {
        if s.get_char(i) == '=' {
            let key = s.substring_char(0, i).to_owned();
            let val = s.substring_char(i + 1, len).to_owned();
            return Ok((key, val));
        }
        i += 1;
    }
    Err(KeyValError { arg: s.to_owned() })
}

} // verus!
