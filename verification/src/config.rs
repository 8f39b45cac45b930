//! Client configuration.
//!
//! The configuration file names the account, the homeserver, the device id,
//! and a command whose standard output is the account password.  Reading the
//! file, decoding it and running the command are the caller's work; this
//! module validates the command and assembles the resolved configuration,
//! trimming the whitespace around the command's output.

use vstd::prelude::*;
use vstd::string::*;

verus! {

/// An invalid configuration.
#[derive(Debug)]
pub struct MientConfigError {
    pub message: String,
}

impl MientConfigError {
    /// The human-readable description of the error.
    pub fn text(&self) -> (r: &str)
        ensures
            r@ == self.message@,
    {
        self.message.as_str()
    }
}

/// What the configuration file holds.
#[derive(Debug)]
pub struct UserConfig {
    pub user: String,
    pub homeserver: String,
    pub device_id: String,
    pub password_cmd: Vec<String>,
}

/// The resolved configuration, password included.
#[derive(Debug)]
pub struct MientConfig {
    pub user: String,
    pub homeserver: String,
    pub password: String,
    pub device_id: String,
}

/// Whether `c` is one of Unicode's whitespace characters, as std's
/// `char::is_whitespace` classifies them.
pub open spec fn is_space(c: char) -> bool {
    let u = c as u32;
    ||| u == 0x09
    ||| u == 0x0A
    ||| u == 0x0B
    ||| u == 0x0C
    ||| u == 0x0D
    ||| u == 0x20
    ||| u == 0x85
    ||| u == 0xA0
    ||| u == 0x1680
    ||| (0x2000 <= u && u <= 0x200A)
    ||| u == 0x2028
    ||| u == 0x2029
    ||| u == 0x202F
    ||| u == 0x205F
    ||| u == 0x3000
}

fn is_space_char(c: char) -> (b: bool)
    ensures
        b == is_space(c),
{
    let u = c as u32;
    u == 0x09 || u == 0x0A || u == 0x0B || u == 0x0C || u == 0x0D || u == 0x20 || u == 0x85 || u
        == 0xA0 || u == 0x1680 || (0x2000 <= u && u <= 0x200A) || u == 0x2028 || u == 0x2029 || u
        == 0x202F || u == 0x205F || u == 0x3000
}

/// `s` without its leading whitespace.
pub open spec fn trim_front(s: Seq<char>) -> Seq<char>
    decreases s.len(),
{
    if s.len() == 0 {
        s
    } else if is_space(s.first()) {
        trim_front(s.drop_first())
    } else {
        s
    }
}

/// `s` without its trailing whitespace.
pub open spec fn trim_back(s: Seq<char>) -> Seq<char>
    decreases s.len(),
{
    if s.len() == 0 {
        s
    } else if is_space(s.last()) {
        trim_back(s.drop_last())
    } else {
        s
    }
}

/// `s` without leading and trailing whitespace, as std's `str::trim` yields
/// it.
pub open spec fn trim_spec(s: Seq<char>) -> Seq<char> {
    trim_back(trim_front(s))
}

/// `s` without leading and trailing whitespace.
fn trimmed(s: &str) -> (r: String)
    ensures
        r@ == trim_spec(s@),
{
    let n = s.unicode_len();
    proof {
        assert(s@.skip(0) =~= s@);
    }
    let mut a: usize = 0;
    while a < n && is_space_char(s.get_char(a))
        invariant
            n == s@.len(),
            a <= n,
            trim_front(s@) == trim_front(s@.skip(a as int)),
        decreases n - a,
    {
        proof {
            assert(s@.skip(a as int).drop_first() =~= s@.skip(a as int + 1));
        }
        a += 1;
    }
    proof {
        if a == n {
            assert(s@.skip(a as int) =~= Seq::<char>::empty());
        }
        assert(trim_front(s@) == s@.skip(a as int));
    }
    let mut b: usize = n;
    while b > a && is_space_char(s.get_char(b - 1))
        invariant
            n == s@.len(),
            a <= b <= n,
            trim_front(s@) == s@.skip(a as int),
            trim_spec(s@) == trim_back(s@.subrange(a as int, b as int)),
        decreases b,
    {
        proof {
            assert(s@.subrange(a as int, b as int).last() == s@[b - 1]);
            assert(s@.subrange(a as int, b as int).drop_last() =~= s@.subrange(
                a as int,
                b as int - 1,
            ));
        }
        b -= 1;
    }
    proof {
        if b == a {
            assert(s@.subrange(a as int, b as int) =~= Seq::<char>::empty());
        }
        assert(trim_spec(s@) == s@.subrange(a as int, b as int));
    }
    s.substring_char(a, b).to_owned()
}

impl UserConfig {
    /// The password command must name a program to run.
    pub fn validate(&self) -> (r: Result<(), MientConfigError>)
        ensures
            r is Ok <==> self.password_cmd@.len() >= 1,
            r matches Err(e) ==> e.message@ == "Invalid password command"@,
    {
        if self.password_cmd.len() < 1 {
            Err(MientConfigError { message: "Invalid password command".to_owned() })
        } else {
            Ok(())
        }
    }
}

impl MientConfig {
    /// Resolve a user configuration with the password command's output: the
    /// password is that output with surrounding whitespace removed.
    pub fn assemble(user_config: UserConfig, password_raw: &str) -> (c: MientConfig)
        ensures
            c.user == user_config.user,
            c.homeserver == user_config.homeserver,
            c.device_id == user_config.device_id,
            c.password@ == trim_spec(password_raw@),
    {
        let password = trimmed(password_raw);
        MientConfig {
            user: user_config.user,
            homeserver: user_config.homeserver,
            password,
            device_id: user_config.device_id,
        }
    }
}

} // verus!
