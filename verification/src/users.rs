//! Local accounts and which of them have administrator rights.
//!
//! Read through netapi32 (not WMI, which asks the domain controller and
//! can hang for tens of seconds). The calls live outside this crate and
//! hand in the rows they return; which rows are accounts, who is an
//! administrator and in what order they are shown is decided here.
//!
//! Read only: creating accounts or changing rights is left to the tools
//! of Windows.

use vstd::prelude::*;

use crate::order::{is_stable_order, key_views, stable_order, text_key, text_key_of};
use crate::text::{
    chars_of, eq_ignore_ascii_case, eq_ignore_ascii_case_spec, occurs_at, starts_with,
    string_from,
};

verus! {

/// `UF_ACCOUNTDISABLE`.
pub const UF_ACCOUNTDISABLE: u32 = 0x0002u32;

/// `UF_LOCKOUT`.
pub const UF_LOCKOUT: u32 = 0x0010u32;

/// `UF_PASSWD_NOTREQD`.
pub const UF_PASSWD_NOTREQD: u32 = 0x0020u32;

/// One local account.
#[derive(Debug, Clone, Default, PartialEq, Eq)]
pub struct User {
    pub name: String,
    /// The full name, when the account has one ("Jan Novák").
    pub full_name: String,
    pub comment: String,
    /// The SID as text (`S-1-5-21-…-1001`).
    pub sid: String,
    /// Member of the built-in Administrators group.
    pub admin: bool,
    pub disabled: bool,
    pub locked: bool,
    /// Windows does NOT require a password for the account
    /// (`UF_PASSWD_NOTREQD`). This does not mean the account has none —
    /// accounts linked to a Microsoft account commonly carry the flag.
    pub password_not_required: bool,
    /// Linked to a Microsoft account (sign-in by e-mail).
    pub microsoft: bool,
    /// Last logon on THIS computer (unix), 0 = never.
    pub last_logon: i64,
    /// How many times it logged on (the SAM counter of this machine).
    pub logons: u32,
}

/// A member of Administrators that is not a local account — a domain
/// group, a Microsoft Entra account and the like.
#[derive(Debug, Clone, Default, PartialEq, Eq)]
pub struct ForeignAdmin {
    /// `DOMAIN\name` as the system reports it.
    pub name: String,
    pub sid: String,
    /// User / group / other — from SID_NAME_USE.
    pub kind: String,
}

/// The accounts overview.
#[derive(Debug, Clone, Default, PartialEq, Eq)]
pub struct Accounts {
    pub users: Vec<User>,
    /// Administrators that are not local accounts. Without them the list
    /// would claim "nobody else is an admin here", which is false on a
    /// company machine.
    pub foreign_admins: Vec<ForeignAdmin>,
    /// The localized name of the administrators group.
    pub admin_group: String,
}

/// One `USER_INFO_3` row as read, with the SID and Microsoft-account flag
/// of level 24 (empty and false when that could not be read).
#[derive(Debug, Clone, Default)]
pub struct UserRow {
    pub name: String,
    pub full_name: String,
    pub comment: String,
    pub flags: u32,
    pub last_logon: u32,
    pub logons: u32,
    pub sid: String,
    pub microsoft: bool,
}

/// One `LOCALGROUP_MEMBERS_INFO_2` row as read: the member's SID as text
/// (empty when it could not be converted), `DOMAIN\name` and SID_NAME_USE.
#[derive(Debug, Clone, Default)]
pub struct MemberRow {
    pub sid: String,
    pub name: String,
    pub usage: i32,
}

/// Is the SID that of a local (or domain) user account? Accounts in the
/// SAM have authority 21; Windows groups 32, Entra 12.
pub open spec fn is_local_account_spec(sid: Seq<char>) -> bool {
    occurs_at(sid, "S-1-5-21-"@, 0)
}

/// Is the SID that of a local (or domain) user account?
pub fn is_local_account(sid: &str) -> (b: bool)
    ensures
        b == is_local_account_spec(sid@),
{
    starts_with(&chars_of(sid), &chars_of("S-1-5-21-"))
}

/// The kind a SID_NAME_USE value names.
pub open spec fn sid_kind_spec(usage: i32) -> Seq<char> {
    if usage == 1 {
        "uživatel"@
    } else if usage == 2 {
        "skupina"@
    } else if usage == 4 {
        "alias"@
    } else if usage == 5 {
        "známá skupina"@
    } else {
        "jiné"@
    }
}

/// The kind of a group member by its SID_NAME_USE.
pub fn sid_kind(usage: i32) -> (r: String)
    ensures
        r@ == sid_kind_spec(usage),
{
    let s = if usage == 1 {
        "uživatel"
    } else if usage == 2 {
        "skupina"
    } else if usage == 4 {
        "alias"
    } else if usage == 5 {
        "známá skupina"
    } else {
        "jiné"
    };
    string_from(&chars_of(s))
}

/// `ForeignAdmin` as mathematical values.
pub struct ForeignAdminView {
    pub name: Seq<char>,
    pub sid: Seq<char>,
    pub kind: Seq<char>,
}

impl View for ForeignAdmin {
    type V = ForeignAdminView;

    open spec fn view(&self) -> ForeignAdminView {
        ForeignAdminView { name: self.name@, sid: self.sid@, kind: self.kind@ }
    }
}

/// The SIDs of the administrators (members with a readable SID) and the
/// members among them that are not local accounts, both in row order.
pub open spec fn members_spec(rows: Seq<MemberRow>) -> (Seq<Seq<char>>, Seq<ForeignAdminView>)
    decreases rows.len(),
{
    if rows.len() == 0 {
        (Seq::empty(), Seq::empty())
    } else {
        let (sids, foreign) = members_spec(rows.drop_last());
        let m = rows.last();
        if m.sid@.len() == 0 {
            (sids, foreign)
        } else if is_local_account_spec(m.sid@) {
            (sids.push(m.sid@), foreign)
        } else {
            (
                sids.push(m.sid@),
                foreign.push(ForeignAdminView { name: m.name@, sid: m.sid@, kind: sid_kind_spec(m.usage) }),
            )
        }
    }
}

/// Sorts the members of the administrators group: every member with a
/// SID is an administrator; domain groups and Entra accounts are kept as
/// foreign administrators — dropping them would claim that only those
/// in the SAM are admins.
pub fn administrators(rows: &[MemberRow]) -> (r: (Vec<String>, Vec<ForeignAdmin>))
    ensures
        r.0@.map_values(|s: String| s@) == members_spec(rows@).0,
        r.1@.map_values(|f: ForeignAdmin| f@) == members_spec(rows@).1,
{
    let mut sids: Vec<String> = Vec::new();
    let mut foreign: Vec<ForeignAdmin> = Vec::new();
    let mut i: usize = 0;
    while i < rows.len()
        invariant
            i <= rows.len(),
            (sids@.map_values(|s: String| s@), foreign@.map_values(|f: ForeignAdmin| f@))
                == members_spec(rows@.take(i as int)),
        decreases rows.len() - i,
    {
        proof {
            assert(rows@.take(i as int + 1).drop_last() =~= rows@.take(i as int));
        }
        let m = &rows[i];
        let sid = chars_of(m.sid.as_str());
        if sid.len() > 0 {
            if !is_local_account(m.sid.as_str()) {
                let f = ForeignAdmin {
                    kind: sid_kind(m.usage),
                    name: string_from(&chars_of(m.name.as_str())),
                    sid: string_from(&sid),
                };
                let ghost fv = f@;
                let ghost before = foreign@.map_values(|f: ForeignAdmin| f@);
                foreign.push(f);
                assert(foreign@.map_values(|f: ForeignAdmin| f@) =~= before.push(fv));
            }
            let ghost before = sids@.map_values(|s: String| s@);
            sids.push(string_from(&sid));
            assert(sids@.map_values(|s: String| s@) =~= before.push(m.sid@));
        }
        i = i + 1;
    }
    assert(rows@.take(rows@.len() as int) =~= rows@);
    (sids, foreign)
}

/// The SID is among the administrators' SIDs (ASCII case-insensitively).
pub open spec fn is_admin_sid(admin_sids: Seq<Seq<char>>, sid: Seq<char>) -> bool {
    exists|i: int| 0 <= i < admin_sids.len() && eq_ignore_ascii_case_spec(#[trigger] admin_sids[i], sid)
}

/// `User` as mathematical values.
pub struct UserView {
    pub name: Seq<char>,
    pub full_name: Seq<char>,
    pub comment: Seq<char>,
    pub sid: Seq<char>,
    pub admin: bool,
    pub disabled: bool,
    pub locked: bool,
    pub password_not_required: bool,
    pub microsoft: bool,
    pub last_logon: i64,
    pub logons: u32,
}

impl View for User {
    type V = UserView;

    open spec fn view(&self) -> UserView {
        UserView {
            name: self.name@,
            full_name: self.full_name@,
            comment: self.comment@,
            sid: self.sid@,
            admin: self.admin,
            disabled: self.disabled,
            locked: self.locked,
            password_not_required: self.password_not_required,
            microsoft: self.microsoft,
            last_logon: self.last_logon,
            logons: self.logons,
        }
    }
}

/// The account one row describes.
pub open spec fn user_spec(r: UserRow, admin_sids: Seq<Seq<char>>) -> UserView {
    UserView {
        name: r.name@,
        full_name: r.full_name@,
        comment: r.comment@,
        sid: r.sid@,
        admin: is_admin_sid(admin_sids, r.sid@),
        disabled: r.flags & UF_ACCOUNTDISABLE != 0,
        locked: r.flags & UF_LOCKOUT != 0,
        password_not_required: r.flags & UF_PASSWD_NOTREQD != 0,
        microsoft: r.microsoft,
        last_logon: r.last_logon as i64,
        logons: r.logons,
    }
}

fn admin_match(admin_sids: &[String], sid: &str) -> (b: bool)
    ensures
        b == is_admin_sid(admin_sids@.map_values(|s: String| s@), sid@),
{
    let ghost all = admin_sids@.map_values(|s: String| s@);
    let cs = chars_of(sid);
    let mut i: usize = 0;
    while i < admin_sids.len()
        invariant
            i <= admin_sids.len(),
            all == admin_sids@.map_values(|s: String| s@),
            cs@ == sid@,
            forall|k: int| 0 <= k < i ==> !eq_ignore_ascii_case_spec(#[trigger] all[k], sid@),
        decreases admin_sids.len() - i,
    {
        if eq_ignore_ascii_case(&chars_of(admin_sids[i].as_str()), &cs) {
            assert(all[i as int] == admin_sids@[i as int]@);
            return true;
        }
        i = i + 1;
    }
    false
}

fn copy_string(s: &String) -> (r: String)
    ensures
        r@ == s@,
{
    string_from(&chars_of(s.as_str()))
}

/// The account one `USER_INFO_3` row describes.
pub fn user_from_row(r: &UserRow, admin_sids: &[String]) -> (u: User)
    ensures
        u@ == user_spec(*r, admin_sids@.map_values(|s: String| s@)),
{
    User {
        admin: admin_match(admin_sids, r.sid.as_str()),
        full_name: copy_string(&r.full_name),
        comment: copy_string(&r.comment),
        disabled: r.flags & UF_ACCOUNTDISABLE != 0,
        locked: r.flags & UF_LOCKOUT != 0,
        password_not_required: r.flags & UF_PASSWD_NOTREQD != 0,
        last_logon: r.last_logon as i64,
        logons: r.logons,
        microsoft: r.microsoft,
        sid: copy_string(&r.sid),
        name: copy_string(&r.name),
    }
}

/// Administrators first, then by name.
pub open spec fn user_key(admin: bool, name: Seq<char>) -> Seq<u64> {
    seq![if admin { 0u64 } else { 1u64 }] + text_key(name)
}

/// The rows that are accounts (those with a name), in row order.
pub open spec fn named_rows(rows: Seq<UserRow>) -> Seq<UserRow>
    decreases rows.len(),
{
    if rows.len() == 0 {
        Seq::empty()
    } else if rows.last().name@.len() == 0 {
        named_rows(rows.drop_last())
    } else {
        named_rows(rows.drop_last()).push(rows.last())
    }
}

/// The sort keys of the accounts.
pub open spec fn user_keys(rows: Seq<UserRow>, admin_sids: Seq<Seq<char>>) -> Seq<Seq<u64>> {
    Seq::new(rows.len(), |i: int| user_key(is_admin_sid(admin_sids, rows[i].sid@), rows[i].name@))
}

/// The accounts overview from what the system reported: the localized
/// group name, the group's member rows and the account rows. Accounts
/// come administrators first, then by name; ties keep the system's order.
pub fn accounts_from(admin_group: String, members: &[MemberRow], rows: &[UserRow]) -> (a: Accounts)
    ensures
        a.admin_group == admin_group,
        a.foreign_admins@.map_values(|f: ForeignAdmin| f@) == members_spec(members@).1,
        exists|p: Seq<usize>|
            #[trigger] is_stable_order(user_keys(named_rows(rows@), members_spec(members@).0), p)
                && a.users@.len() == p.len() && forall|i: int| 0 <= i < p.len() ==> (#[trigger] a.users@[i])@
                == user_spec(named_rows(rows@)[p[i] as int], members_spec(members@).0),
{
    let (admin_sids, foreign_admins) = administrators(members);
    let ghost sids = members_spec(members@).0;
    let mut named: Vec<&UserRow> = Vec::new();
    let mut i: usize = 0;
    while i < rows.len()
        invariant
            i <= rows.len(),
            named@.len() == named_rows(rows@.take(i as int)).len(),
            forall|k: int| 0 <= k < named@.len() ==> *(#[trigger] named@[k]) == named_rows(rows@.take(i as int))[k],
        decreases rows.len() - i,
    {
        proof {
            assert(rows@.take(i as int + 1).drop_last() =~= rows@.take(i as int));
        }
        if rows[i].name.unicode_len() > 0 {
            named.push(&rows[i]);
        }
        i = i + 1;
    }
    assert(rows@.take(rows@.len() as int) =~= rows@);
    let ghost nv = named_rows(rows@);
    let mut keys: Vec<Vec<u64>> = Vec::new();
    let mut k: usize = 0;
    while k < named.len()
        invariant
            k <= named@.len(),
            named@.len() == nv.len(),
            forall|j: int| 0 <= j < named@.len() ==> *(#[trigger] named@[j]) == nv[j],
            admin_sids@.map_values(|s: String| s@) == sids,
            keys@.len() == k,
            forall|j: int| 0 <= j < k ==> (#[trigger] keys@[j])@ == user_keys(nv, sids)[j],
        decreases named@.len() - k,
    {
        let admin = admin_match(admin_sids.as_slice(), named[k].sid.as_str());
        let mut key: Vec<u64> = vec![if admin { 0u64 } else { 1u64 }];
        let mut nk = text_key_of(named[k].name.as_str());
        key.append(&mut nk);
        proof {
            assert(key@ =~= user_key(admin, nv[k as int].name@));
        }
        keys.push(key);
        k = k + 1;
    }
    assert(key_views(keys@) =~= user_keys(nv, sids));
    let p = stable_order(keys.as_slice());
    let mut out: Vec<User> = Vec::new();
    let mut q: usize = 0;
    while q < p.len()
        invariant
            q <= p@.len(),
            is_stable_order(user_keys(nv, sids), p@),
            named@.len() == nv.len(),
            forall|j: int| 0 <= j < named@.len() ==> *(#[trigger] named@[j]) == nv[j],
            admin_sids@.map_values(|s: String| s@) == sids,
            out@.len() == q,
            forall|j: int| 0 <= j < q ==> (#[trigger] out@[j])@ == user_spec(nv[p@[j] as int], sids),
        decreases p@.len() - q,
    {
        let idx = p[q];
        out.push(user_from_row(named[idx], admin_sids.as_slice()));
        q = q + 1;
    }
    assert(is_stable_order(user_keys(named_rows(rows@), members_spec(members@).0), p@));
    Accounts { users: out, foreign_admins, admin_group }
}

} // verus!
