//! The user who called the program through sudo.

use vstd::prelude::*;
use crate::number::{decimal, decimal_of, law_decimal_read_back_u32, parse_u32, u32_of};
use crate::text::chars_of;

verus! {

/// The user that a command runs as, found out before the command's process is made.
#[derive(Debug)]
pub struct Caller {
    pub uid: u32,
    pub name: String,
    pub home: Vec<u8>,
    pub shell: Vec<u8>,
    pub gid: u32,
    pub groups: Vec<u32>,
}

/// A user as the host knows it.
#[derive(Debug)]
pub struct UserEntry {
    pub uid: u32,
    pub name: String,
    pub home: Vec<u8>,
    pub shell: Vec<u8>,
}

/// What came of asking the host for a user.
#[derive(Debug)]
pub enum Lookup {
    /// The host could not answer.
    Failed,
    /// There is no such user.
    Missing,
    Found(UserEntry),
}

/// Why the calling user cannot be told.
#[derive(Clone, Copy, Debug, PartialEq, Eq, Structural)]
pub enum CallerError {
    UidNotSet,
    UidNotANumber,
    GidNotSet,
    GidNotANumber,
    /// The call came from root itself.
    IsRoot,
    LookupFailed,
    NoEntry(u32),
    NameHasNul,
    NoGroups,
}

impl CallerError {
    /// What to say of the error.
    pub open spec fn text(self) -> Seq<char> {
        match self {
            CallerError::UidNotSet =>
                "SUDO_UID not set — run this via `sudo` from your own user account"@,
            CallerError::UidNotANumber => "parse SUDO_UID"@,
            CallerError::GidNotSet => "SUDO_GID not set"@,
            CallerError::GidNotANumber => "parse SUDO_GID"@,
            CallerError::IsRoot =>
                "refusing to run this command as root; invoke sudo from a normal user account"@,
            CallerError::LookupFailed => "look up SUDO_UID"@,
            CallerError::NoEntry(uid) => "no passwd entry for uid "@ + decimal_of(uid as nat),
            CallerError::NameHasNul => "user name contains NUL"@,
            CallerError::NoGroups => "getgrouplist"@,
        }
    }

    /// What to say of the error.
    pub fn message(&self) -> (r: String)
        ensures
            r@ == self.text(),
    {
        match self {
            CallerError::UidNotSet =>
                "SUDO_UID not set — run this via `sudo` from your own user account".to_owned(),
            CallerError::UidNotANumber => "parse SUDO_UID".to_owned(),
            CallerError::GidNotSet => "SUDO_GID not set".to_owned(),
            CallerError::GidNotANumber => "parse SUDO_GID".to_owned(),
            CallerError::IsRoot =>
                "refusing to run this command as root; invoke sudo from a normal user account".to_owned(),
            CallerError::LookupFailed => "look up SUDO_UID".to_owned(),
            CallerError::NoEntry(uid) => {
                let mut r = "no passwd entry for uid ".to_owned();
                r.append(decimal(*uid as u64).as_str());
                r
            },
            CallerError::NameHasNul => "user name contains NUL".to_owned(),
            CallerError::NoGroups => "getgrouplist".to_owned(),
        }
    }
}

/// The user and the group that the two variables of sudo tell. `None` is that a variable is not
/// set. Root is no user to run as.
pub open spec fn ids_of(uid: Option<Seq<char>>, gid: Option<Seq<char>>) -> Result<
    (u32, u32),
    CallerError,
> {
    if uid is None {
        Err(CallerError::UidNotSet)
    } else if u32_of(uid->Some_0) is None {
        Err(CallerError::UidNotANumber)
    } else if gid is None {
        Err(CallerError::GidNotSet)
    } else if u32_of(gid->Some_0) is None {
        Err(CallerError::GidNotANumber)
    } else if u32_of(uid->Some_0) == Some(0u32) {
        Err(CallerError::IsRoot)
    } else {
        Ok((u32_of(uid->Some_0)->Some_0, u32_of(gid->Some_0)->Some_0))
    }
}

/// The user and the group that called sudo, by their numbers.
pub fn sudo_ids(uid: Option<String>, gid: Option<String>) -> (r: Result<(u32, u32), CallerError>)
    ensures
        r == ids_of(
            match uid {
                Some(s) => Some(s@),
                None => None,
            },
            match gid {
                Some(s) => Some(s@),
                None => None,
            },
        ),
{
    let uid = match uid {
        Some(s) => match parse_u32(s.as_str()) {
            Some(n) => n,
            None => {
                return Err(CallerError::UidNotANumber);
            },
        },
        None => {
            return Err(CallerError::UidNotSet);
        },
    };
    let gid = match gid {
        Some(s) => match parse_u32(s.as_str()) {
            Some(n) => n,
            None => {
                return Err(CallerError::GidNotANumber);
            },
        },
        None => {
            return Err(CallerError::GidNotSet);
        },
    };
    if uid == 0 {
        return Err(CallerError::IsRoot);
    }
    Ok((uid, gid))
}

fn has_nul(s: &str) -> (r: bool)
    ensures
        r == s@.contains('\0'),
{
    let chars = chars_of(s);
    let mut i: usize = 0;
    while i < chars.len()
        invariant
            chars@ == s@,
            i <= chars.len(),
            forall|j: int| 0 <= j < i ==> s@[j] != '\0',
        decreases chars.len() - i,
    {
        if chars[i] == '\0' {
            assert(s@[i as int] == '\0');
            return true;
        }
        i = i + 1;
    }
    false
}

/// The user that the host answered with, where its name can be handed to the system.
pub open spec fn known_of(uid: u32, answer: Lookup) -> Result<UserEntry, CallerError> {
    match answer {
        Lookup::Failed => Err(CallerError::LookupFailed),
        Lookup::Missing => Err(CallerError::NoEntry(uid)),
        Lookup::Found(user) => if user.name@.contains('\0') {
            Err(CallerError::NameHasNul)
        } else {
            Ok(user)
        },
    }
}

/// The user that the host answered with, where its name can be handed to the system.
pub fn known_user(uid: u32, answer: Lookup) -> (r: Result<UserEntry, CallerError>)
    ensures
        r == known_of(uid, answer),
{
    match answer {
        Lookup::Failed => Err(CallerError::LookupFailed),
        Lookup::Missing => Err(CallerError::NoEntry(uid)),
        Lookup::Found(user) => {
            if has_nul(user.name.as_str()) {
                Err(CallerError::NameHasNul)
            } else {
                Ok(user)
            }
        },
    }
}

/// The calling user with the group that it called with and the groups that it belongs to.
pub open spec fn caller_of(user: UserEntry, gid: u32, groups: Option<Vec<u32>>) -> Result<
    Caller,
    CallerError,
> {
    match groups {
        Some(groups) => Ok(
            Caller {
                uid: user.uid,
                name: user.name,
                home: user.home,
                shell: user.shell,
                gid,
                groups,
            },
        ),
        None => Err(CallerError::NoGroups),
    }
}

/// The calling user with the group that it called with and the groups that it belongs to. `None`
/// is that the host could not tell the groups.
pub fn sudo_caller(user: UserEntry, gid: u32, groups: Option<Vec<u32>>) -> (r: Result<
    Caller,
    CallerError,
>)
    ensures
        r == caller_of(user, gid, groups),
{
    match groups {
        Some(groups) => Ok(
            Caller {
                uid: user.uid,
                name: user.name,
                home: user.home,
                shell: user.shell,
                gid,
                groups,
            },
        ),
        None => Err(CallerError::NoGroups),
    }
}

/// What finding out the calling user comes to: the two variables, then the host's answer for the
/// user that they tell, then that user's groups.
pub open spec fn resolved(
    uid: Option<Seq<char>>,
    gid: Option<Seq<char>>,
    answer: Lookup,
    groups: Option<Vec<u32>>,
) -> Result<Caller, CallerError> {
    match ids_of(uid, gid) {
        Err(e) => Err(e),
        Ok(ids) => match known_of(ids.0, answer) {
            Err(e) => Err(e),
            Ok(user) => caller_of(user, ids.1, groups),
        },
    }
}

/// Nothing ever runs as root for the user. Where the host answers for the user that it was asked
/// for, the calling user is the one that the two variables tell, with the group that they tell, and
/// is not root.
pub proof fn law_caller_is_not_root(
    uid: Option<Seq<char>>,
    gid: Option<Seq<char>>,
    answer: Lookup,
    groups: Option<Vec<u32>>,
)
    requires
        answer matches Lookup::Found(user) ==> ids_of(uid, gid) matches Ok(ids) ==> user.uid == ids.0,
    ensures
        resolved(uid, gid, answer, groups) matches Ok(c) ==> {
            &&& ids_of(uid, gid) == Ok::<(u32, u32), CallerError>((c.uid, c.gid))
            &&& c.uid != 0
            &&& groups == Some(c.groups)
        },
{
}

/// The two variables tell a user and a group exactly where both are set, both are numbers, and the user
/// is not root. Else the first thing that is amiss is told, the user's before the group's.
pub proof fn law_ids(uid: Option<Seq<char>>, gid: Option<Seq<char>>)
    ensures
        ids_of(uid, gid) matches Ok(ids) ==> {
            &&& uid is Some && u32_of(uid->Some_0) == Some(ids.0)
            &&& gid is Some && u32_of(gid->Some_0) == Some(ids.1)
            &&& ids.0 != 0
        },
        uid is None <==> ids_of(uid, gid) == Err::<(u32, u32), CallerError>(CallerError::UidNotSet),
        (uid is Some && u32_of(uid->Some_0) is None) <==> ids_of(uid, gid)
            == Err::<(u32, u32), CallerError>(CallerError::UidNotANumber),
        (uid is Some && u32_of(uid->Some_0) is Some && gid is None) <==> ids_of(uid, gid)
            == Err::<(u32, u32), CallerError>(CallerError::GidNotSet),
        (uid is Some && u32_of(uid->Some_0) is Some && gid is Some && u32_of(gid->Some_0) is None)
            <==> ids_of(uid, gid) == Err::<(u32, u32), CallerError>(CallerError::GidNotANumber),
        (uid is Some && u32_of(uid->Some_0) == Some(0u32) && gid is Some && u32_of(gid->Some_0) is Some)
            <==> ids_of(uid, gid) == Err::<(u32, u32), CallerError>(CallerError::IsRoot),
{
}

/// The user who calls with `uid` and `gid` in decimal, and whom the host knows, is found: with the
/// name, home and shell that the host knows, and with the groups that it tells.
pub proof fn law_caller_is_found(uid: u32, gid: u32, user: UserEntry, groups: Vec<u32>)
    requires
        uid != 0,
        user.uid == uid,
        !user.name@.contains('\0'),
    ensures
        ({
            let r = resolved(
                Some(decimal_of(uid as nat)),
                Some(decimal_of(gid as nat)),
                Lookup::Found(user),
                Some(groups),
            );
            r matches Ok(c) && c.uid == uid && c.gid == gid && c.groups == groups && c.name
                == user.name && c.home == user.home && c.shell == user.shell
        }),
{
    law_decimal_read_back_u32(uid);
    law_decimal_read_back_u32(gid);
}

/// Where the two variables tell a user, the user is found exactly where the host knows it, its name can
/// be handed to the system, and its groups can be told. Else what is amiss is told.
pub proof fn law_caller_errors(
    uid: Option<Seq<char>>,
    gid: Option<Seq<char>>,
    answer: Lookup,
    groups: Option<Vec<u32>>,
)
    requires
        ids_of(uid, gid) is Ok,
    ensures
        ({
            let r = resolved(uid, gid, answer, groups);
            let asked = ids_of(uid, gid)->Ok_0.0;
            &&& answer is Failed ==> r == Err::<Caller, CallerError>(CallerError::LookupFailed)
            &&& answer is Missing ==> r == Err::<Caller, CallerError>(CallerError::NoEntry(asked))
            &&& answer matches Lookup::Found(u) ==> u.name@.contains('\0') ==> r == Err::<
                Caller,
                CallerError,
            >(CallerError::NameHasNul)
            &&& answer matches Lookup::Found(u) ==> !u.name@.contains('\0') ==> (r is Ok <==> groups
                is Some) && (groups is None ==> r == Err::<Caller, CallerError>(CallerError::NoGroups))
        }),
{
}

/// What is said of a user that is not known ends with the number that was asked for.
pub proof fn law_no_entry_text(uid: u32)
    ensures
        ({
            let text = CallerError::NoEntry(uid).text();
            let number = decimal_of(uid as nat);
            text.len() >= number.len() && text.skip(text.len() - number.len()) == number
                && text.take(text.len() - number.len()) == "no passwd entry for uid "@
        }),
{
    let text = CallerError::NoEntry(uid).text();
    let number = decimal_of(uid as nat);
    assert(text.skip(text.len() - number.len()) =~= number);
    assert(text.take(text.len() - number.len()) =~= "no passwd entry for uid "@);
}

} // verus!
