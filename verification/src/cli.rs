//! The command line onto the daemons: where they are, and the launch channel we run under.
use vstd::prelude::*;
use vstd::string::*;

use crate::text::{
    all_digits, chars_of, decimal, is_digit, lemma_decimal_digits, part_of, read_unsigned, unsigned,
    unsigned_digits, value,
};

verus! {

/// The variable that says on which fd the launch channel is.
pub const LAUNCH_FD: &'static str = "DRV_LAUNCH_FD";

/// Where drv-appd listens.
pub const APPD: &'static str = "/run/drv/appd.sock";

/// Where the identity daemon listens.
pub const IDENTITY: &'static str = "/run/drv/identity.sock";

/// The fd a text names: a decimal number that is no less than zero, so zero with a minus too.
pub open spec fn fd_of(s: Seq<char>) -> Option<nat> {
    if s.len() > 1 && s[0] == '-' {
        if all_digits(s.skip(1)) && value(s.skip(1)) == 0 {
            Some(0)
        } else {
            None
        }
    } else {
        unsigned(s, i32::MAX as nat)
    }
}

/// The fd of the launch channel, by the variable that says so.
pub fn launch_fd(var: Option<&str>) -> (r: Result<i32, String>)
    ensures
        match (r, var) {
            (Ok(fd), Some(s)) => fd >= 0 && fd_of(s@) == Some(fd as nat),
            (Ok(_), None) => false,
            (Err(e), _) => (var is Some ==> fd_of(var->0@) is None) && e@
                == "no launch channel (DRV_LAUNCH_FD unset): only an app with launcher = true may launch"@,
        },
{
    if let Some(s) = var {
        let chars = chars_of(s);
        if chars.len() > 1 && chars[0] == '-' {
            let rest = part_of(&chars, 1, chars.len());
            assert(rest@ =~= s@.skip(1));
            let mut i: usize = 0;
            let mut zero = true;
            while i < rest.len()
                invariant
                    i <= rest@.len(),
                    zero == (forall|j: int| 0 <= j < i ==> rest@[j] == '0'),
                decreases rest@.len() - i,
            {
                if rest[i] != '0' {
                    zero = false;
                }
                i = i + 1;
            }
            proof {
                lemma_zero(rest@);
            }
            if zero {
                return Ok(0);
            }
        } else if let Some(n) = read_unsigned(&chars, i32::MAX as u64) {
            return Ok(n as i32);
        }
    }
    Err(
        "no launch channel (DRV_LAUNCH_FD unset): only an app with launcher = true may launch".to_owned(),
    )
}

/// Digits come to zero where every one of them is zero.
proof fn lemma_zero(s: Seq<char>)
    ensures
        s.len() > 0 ==> ((all_digits(s) && value(s) == 0) <==> (forall|j: int|
            0 <= j < s.len() ==> s[j] == '0')),
    decreases s.len(),
{
    if s.len() > 0 {
        let init = s.drop_last();
        lemma_zero(init);
        if all_digits(s) && value(s) == 0 {
            assert forall|j: int| 0 <= j < s.len() implies s[j] == '0' by {
                if init.len() > 0 {
                    assert(all_digits(init)) by {
                        assert forall|k: int| 0 <= k < init.len() implies crate::text::is_digit(
                            #[trigger] init[k],
                        ) by {
                            assert(crate::text::is_digit(s[k]));
                        }
                    }
                    if j < init.len() {
                        assert(init[j] == '0');
                    }
                }
                assert(crate::text::is_digit(s[s.len() - 1]));
            }
        }
        if forall|j: int| 0 <= j < s.len() ==> s[j] == '0' {
            assert forall|j: int| 0 <= j < init.len() implies init[j] == '0' by {
                assert(s[j] == '0');
            }
            assert(s[s.len() - 1] == '0');
            if init.len() == 0 {
                assert(value(init) == 0);
            }
        }
    }
}

/// Where a daemon is: as the command line says, else as the environment says, else where it
/// listens by itself.
pub fn socket(given: Option<String>, var: Option<String>, default: &str) -> (r: String)
    ensures
        r@ == match (given, var) {
            (Some(path), _) => path@,
            (None, Some(path)) => path@,
            (None, None) => default@,
        },
{
    match given {
        Some(path) => path,
        None => match var {
            Some(path) => path,
            None => default.to_owned(),
        },
    }
}

/// An fd is read from its decimal number, where it is one that an fd can have; a minus is read
/// only in front of zero.
pub proof fn fds_read_back(n: nat)
    ensures
        n <= i32::MAX ==> fd_of(decimal(n)) == Some(n),
        n > i32::MAX ==> fd_of(decimal(n)) is None,
        n > 0 ==> fd_of(seq!['-'] + decimal(n)) is None,
        fd_of(seq!['-', '0']) == Some(0nat),
        fd_of(Seq::empty()) is None,
{
    lemma_decimal_digits(n);
    let d = decimal(n);
    assert(is_digit(d[0]));
    assert(unsigned_digits(d) == d);
    let m = seq!['-'] + d;
    assert(m.skip(1) =~= d);
    let z = seq!['-', '0'];
    assert(z.skip(1) =~= seq!['0']);
    assert(seq!['0'].drop_last() =~= Seq::<char>::empty());
    assert(value(Seq::<char>::empty()) == 0);
    assert(value(seq!['0']) == 0);
}

/// Behind a minus there are only digits.
pub proof fn a_minus_has_digits_behind_it(s: Seq<char>)
    ensures
        fd_of(seq!['-'] + s) is Some ==> s.len() > 0 && forall|i: int|
            0 <= i < s.len() ==> '0' <= #[trigger] s[i] && s[i] <= '9',
{
    let m = seq!['-'] + s;
    assert(m.skip(1) =~= s);
    if s.len() == 0 {
        assert(unsigned_digits(m) == m);
        assert(!is_digit(m[0]));
    } else if fd_of(m) is Some {
        assert forall|i: int| 0 <= i < s.len() implies '0' <= #[trigger] s[i] && s[i] <= '9' by {
            assert(is_digit(s[i]));
        }
    }
}

} // verus!
