//! The argument interpreter: turns the raw command-line arguments (the
//! program name excluded) into an optional mode flag and an optional file
//! path, or reports a usage error.
//!
//! A single argument that begins with a dash is taken for a flag; whether a
//! flag actually names one of the recognized modes is checked later, at the
//! point of use.  A file literally named `-l` is therefore unreachable — a
//! known limitation kept as it is.

use vstd::prelude::*;

verus! {

/// The leading dash that marks a flag argument.
pub const DASH: u8 = 0x2D;

/// The ways an invocation can be malformed.
#[derive(Clone, Copy, PartialEq, Eq, Structural, Debug)]
pub enum UsageError {
    /// More arguments were given than a flag and a path.
    BadArgumentCount,
    /// A flag was dispatched for counting but names no recognized mode.
    UnknownFlag,
}

/// The parsed invocation: an optional flag (with its leading dash) and an
/// optional file path; an absent path means standard input.
pub struct Invocation {
    pub flag: Option<Vec<u8>>,
    pub path: Option<Vec<u8>>,
}

/// What interpreting `args` must yield: no argument selects the defaults on
/// standard input; one argument is a flag if it starts with a dash and a
/// path otherwise; two arguments are a flag and a path; more are an error.
pub open spec fn interpret_spec(args: Seq<Seq<u8>>) -> Result<
    (Option<Seq<u8>>, Option<Seq<u8>>),
    UsageError,
> {
    if args.len() == 0 {
        Ok((None, None))
    } else if args.len() == 1 {
        if args[0].len() >= 1 && args[0][0] == DASH {
            Ok((Some(args[0]), None))
        } else {
            Ok((None, Some(args[0])))
        }
    } else if args.len() == 2 {
        Ok((Some(args[0]), Some(args[1])))
    } else {
        Err(UsageError::BadArgumentCount)
    }
}

/// The views of an invocation's flag and path, for stating what the
/// interpreter returned.
pub open spec fn invocation_view(inv: Invocation) -> (Option<Seq<u8>>, Option<Seq<u8>>) {
    (
        match inv.flag {
            Some(f) => Some(f@),
            None => None,
        },
        match inv.path {
            Some(p) => Some(p@),
            None => None,
        },
    )
}

/// Interprets the command-line arguments, the program name excluded.
pub fn interpret_args(args: &Vec<Vec<u8>>) -> (r: Result<Invocation, UsageError>)
    ensures
        match interpret_spec(args.deep_view()) {
            Ok(fp) => r is Ok && invocation_view(r->Ok_0) == fp,
            Err(e) => r is Err && r->Err_0 == e,
        },
{
    proof {
        assert(args.deep_view().len() == args@.len());
    }
    if args.len() == 0 {
        Ok(Invocation { flag: None, path: None })
    } else if args.len() == 1 {
        let a0 = clone_bytes(&args[0]);
        proof {
            assert(args.deep_view()[0] == args@[0]@);
        }
        if a0.len() >= 1 && a0[0] == DASH {
            Ok(Invocation { flag: Some(a0), path: None })
        } else {
            Ok(Invocation { flag: None, path: Some(a0) })
        }
    } else if args.len() == 2 {
        let a0 = clone_bytes(&args[0]);
        let a1 = clone_bytes(&args[1]);
        proof {
            assert(args.deep_view()[0] == args@[0]@);
            assert(args.deep_view()[1] == args@[1]@);
        }
        Ok(Invocation { flag: Some(a0), path: Some(a1) })
    } else {
        Err(UsageError::BadArgumentCount)
    }
}

/// A copy of a byte vector with the same contents.
fn clone_bytes(v: &Vec<u8>) -> (r: Vec<u8>)
    ensures
        r@ == v@,
{
    let mut r: Vec<u8> = Vec::new();
    let mut i: usize = 0;
    while i < v.len()
        invariant
            i <= v@.len(),
            r@ =~= v@.take(i as int),
        decreases v@.len() - i,
    {
        r.push(v[i]);
        i = i + 1;
    }
    proof {
        assert(v@.take(v@.len() as int) =~= v@);
    }
    r
}

} // verus!
