//! The password vault: secrets live in the platform credential store under
//! the service `DBan`, and the front end only keeps each entry's id, site and
//! account.
use vstd::prelude::*;
use crate::text::string_of;

verus! {

broadcast use vstd::string::group_string_axioms;

/// The credential store's handle on one credential.
#[verifier::external_type_specification]
#[verifier::external_body]
pub struct ExCredentialEntry(keyring::Entry);

/// A failure of the credential store: whether it found no credential, and
/// the store's own description of the failure.
pub struct CredentialError {
    pub no_entry: bool,
    pub message: String,
}

/// What `keyring::Error` displays as for no credential found.
pub open spec fn no_entry_text() -> Seq<char> {
    "No matching entry found in secure storage"@
}

/// `p` is a prefix of `m`.
pub open spec fn starts_with(m: Seq<char>, p: Seq<char>) -> bool {
    p.len() <= m.len() && m.take(p.len() as int) == p
}

/// `m` is how a `keyring::Error` displays: one of the forms of its `Display`
/// impl (a platform failure, no storage access, no entry, bad encoding, an
/// attribute too long or invalid, an ambiguous entry).
pub open spec fn store_error_text(m: Seq<char>) -> bool {
    ||| starts_with(m, "Platform secure storage failure: "@)
    ||| starts_with(m, "Couldn't access platform secure storage: "@)
    ||| m == no_entry_text()
    ||| m == "Data is not UTF-8 encoded"@
    ||| starts_with(m, "Attribute "@)
    ||| starts_with(m, "Entry is matched by "@)
}

/// A failure as the store reports it: a displayed `keyring::Error`, flagged
/// as missing exactly when it is the no-entry error.
pub open spec fn store_error(e: CredentialError) -> bool {
    &&& store_error_text(e.message@)
    &&& e.no_entry <==> e.message@ == no_entry_text()
}

/// `e` is `prefix` followed by a displayed store error.
pub open spec fn reported(e: Seq<char>, prefix: Seq<char>) -> bool {
    starts_with(e, prefix) && store_error_text(e.skip(prefix.len() as int))
}

/// What the credential store answered a request: done, the password read,
/// no credential found, or another failure with the store's displayed error.
pub enum StoreAnswer {
    Done,
    Value(Seq<char>),
    NoEntry,
    Failed(Seq<char>),
}

/// A request made to the credential store on one credential, with its
/// answer: a write of a password, a read, or a delete.
pub enum StoreRequest {
    Write(Seq<char>, StoreAnswer),
    Read(StoreAnswer),
    Delete(StoreAnswer),
}

/// The answer a write or delete came back with.
pub open spec fn unit_answer(r: Result<(), CredentialError>) -> StoreAnswer {
    match r {
        Ok(()) => StoreAnswer::Done,
        Err(e) => if e.no_entry {
            StoreAnswer::NoEntry
        } else {
            StoreAnswer::Failed(e.message@)
        },
    }
}

/// The answer a read came back with.
pub open spec fn read_answer(r: Result<String, CredentialError>) -> StoreAnswer {
    match r {
        Ok(p) => StoreAnswer::Value(p@),
        Err(e) => if e.no_entry {
            StoreAnswer::NoEntry
        } else {
            StoreAnswer::Failed(e.message@)
        },
    }
}

/// A handle on one credential of the store, with the service and user it was
/// opened for and the requests made on it so far.
pub struct Credential {
    entry: keyring::Entry,
    service: Ghost<Seq<char>>,
    user: Ghost<Seq<char>>,
    requests: Ghost<Seq<StoreRequest>>,
}

impl Credential {
    /// The service the credential was opened for.
    pub closed spec fn service(&self) -> Seq<char> {
        self.service@
    }

    /// The user the credential was opened for.
    pub closed spec fn user(&self) -> Seq<char> {
        self.user@
    }

    /// The requests made to the store on this credential, in order.
    pub closed spec fn requests(&self) -> Seq<StoreRequest> {
        self.requests@
    }
}

/// `keyring::Entry::new`: a handle on the credential of `user` for `service`,
/// or the displayed `keyring::Error` of why the store refused one. Which
/// outcome comes depends on the platform store and its builder, which is
/// process-wide state; what is promised is the key a handle addresses and the
/// form of an error.
#[verifier::external_body]
fn credential_entry(service: &str, user: &str) -> (r: Result<Credential, String>)
    ensures
        r matches Ok(c) ==> c.service() == service@ && c.user() == user@ && c.requests()
            == Seq::<StoreRequest>::empty(),
        r matches Err(m) ==> store_error_text(m@),
{
    match keyring::Entry::new(service, user) {
        Ok(e) => Ok(Credential { entry: e, service: Ghost(service@), user: Ghost(user@), requests: Ghost(Seq::empty()) }),
        Err(e) => Err(e.to_string()),
    }
}

/// `keyring::Entry::set_password`: writes `password` to the credential.
/// Whether the store accepts it depends on the platform store; only the form
/// of a failure is promised.
#[verifier::external_body]
fn store_password(c: &mut Credential, password: &str) -> (r: Result<(), CredentialError>)
    ensures
        final(c).service() == old(c).service(),
        final(c).user() == old(c).user(),
        final(c).requests() == old(c).requests().push(StoreRequest::Write(password@, unit_answer(r))),
        r matches Err(e) ==> store_error(e),
{
    let r = match c.entry.set_password(password) {
        Ok(()) => Ok(()),
        Err(e) => Err(
            CredentialError {
                no_entry: match &e {
                    keyring::Error::NoEntry => true,
                    _ => false,
                },
                message: e.to_string(),
            },
        ),
    };
    c.requests = Ghost(c.requests@.push(StoreRequest::Write(password@, unit_answer(r))));
    r
}

/// `keyring::Entry::get_password`: reads the credential's password. What it
/// reads depends on the platform store; only the form of a failure is promised.
#[verifier::external_body]
fn read_password(c: &mut Credential) -> (r: Result<String, CredentialError>)
    ensures
        final(c).service() == old(c).service(),
        final(c).user() == old(c).user(),
        final(c).requests() == old(c).requests().push(StoreRequest::Read(read_answer(r))),
        r matches Err(e) ==> store_error(e),
{
    let r = match c.entry.get_password() {
        Ok(p) => Ok(p),
        Err(e) => Err(
            CredentialError {
                no_entry: match &e {
                    keyring::Error::NoEntry => true,
                    _ => false,
                },
                message: e.to_string(),
            },
        ),
    };
    c.requests = Ghost(c.requests@.push(StoreRequest::Read(read_answer(r))));
    r
}

/// `keyring::Entry::delete_credential`: deletes the credential. Whether it
/// succeeds depends on the platform store; only the form of a failure is
/// promised.
#[verifier::external_body]
fn remove_credential(c: &mut Credential) -> (r: Result<(), CredentialError>)
    ensures
        final(c).service() == old(c).service(),
        final(c).user() == old(c).user(),
        final(c).requests() == old(c).requests().push(StoreRequest::Delete(unit_answer(r))),
        r matches Err(e) ==> store_error(e),
{
    let r = match c.entry.delete_credential() {
        Ok(()) => Ok(()),
        Err(e) => Err(
            CredentialError {
                no_entry: match &e {
                    keyring::Error::NoEntry => true,
                    _ => false,
                },
                message: e.to_string(),
            },
        ),
    };
    c.requests = Ghost(c.requests@.push(StoreRequest::Delete(unit_answer(r))));
    r
}

/// The service under which the vault's credentials are stored.
pub const SERVICE: &'static str = "DBan";

/// The credential of vault entry `id` under the service `DBan`, with no
/// request made on it yet; a refusal is the store's displayed error.
pub fn entry(id: &str) -> (r: Result<Credential, String>)
    ensures
        r matches Ok(c) ==> c.service() == SERVICE@ && c.user() == id@ && c.requests()
            == Seq::<StoreRequest>::empty(),
        r matches Err(m) ==> store_error_text(m@),
{
    credential_entry(SERVICE, id)
}

// ---------------------------------------------------------------------------
// Outcomes
// ---------------------------------------------------------------------------

/// The message prefix when the store refuses a password.
pub open spec fn write_failed_prefix() -> Seq<char> {
    "写入 Windows 凭据管理器失败："@
}

/// The message prefix when a stored password cannot be read back.
pub open spec fn readback_failed_prefix() -> Seq<char> {
    "密码已写入但回读失败："@
}

/// The message when the password read back differs from the one written.
pub open spec fn readback_mismatch_message() -> Seq<char> {
    "密码写入校验失败"@
}

/// The message prefix when reading a password fails.
pub open spec fn read_failed_prefix() -> Seq<char> {
    "读取 Windows 凭据管理器失败："@
}

/// The message prefix when deleting a credential fails.
pub open spec fn delete_failed_prefix() -> Seq<char> {
    "删除 Windows 凭据失败："@
}

/// The check after writing a password: it must read back, and read back equal
/// to what was written; otherwise the message to report (and the credential
/// is to be deleted again).
pub fn readback_verdict(readback: &Result<String, CredentialError>, secret: &String) -> (r: Result<(), String>)
    ensures
        match readback {
            Ok(stored) => if stored@ == secret@ {
                r is Ok
            } else {
                r matches Err(e) && e@ == readback_mismatch_message()
            },
            Err(err) => r matches Err(e) && e@ == readback_failed_prefix() + err.message@,
        },
{
    match readback {
        Ok(stored) => {
            if *stored == *secret {
                Ok(())
            } else {
                Err(string_of("密码写入校验失败"))
            }
        },
        Err(err) => {
            let mut e = string_of("密码已写入但回读失败：");
            e.append(err.message.as_str());
            Err(e)
        },
    }
}

/// The result of reading a password: the password, none when the store has
/// no credential, or the message for any other failure.
pub fn read_outcome(read: Result<String, CredentialError>) -> (r: Result<Option<String>, String>)
    ensures
        match read {
            Ok(p) => r matches Ok(Some(q)) && q@ == p@,
            Err(err) => if err.no_entry {
                r matches Ok(None)
            } else {
                r matches Err(e) && e@ == read_failed_prefix() + err.message@
            },
        },
{
    match read {
        Ok(p) => Ok(Some(p)),
        Err(err) => {
            if err.no_entry {
                Ok(None)
            } else {
                let mut e = string_of("读取 Windows 凭据管理器失败：");
                e.append(err.message.as_str());
                Err(e)
            }
        },
    }
}

/// The result of deleting a credential: a missing credential counts as deleted.
pub fn delete_outcome(deleted: Result<(), CredentialError>) -> (r: Result<(), String>)
    ensures
        match deleted {
            Ok(()) => r is Ok,
            Err(err) => if err.no_entry {
                r is Ok
            } else {
                r matches Err(e) && e@ == delete_failed_prefix() + err.message@
            },
        },
{
    match deleted {
        Ok(()) => Ok(()),
        Err(err) => {
            if err.no_entry {
                Ok(())
            } else {
                let mut e = string_of("删除 Windows 凭据失败：");
                e.append(err.message.as_str());
                Err(e)
            }
        },
    }
}

/// The result of writing a password: the message for a refused write.
pub fn write_outcome(written: Result<(), CredentialError>) -> (r: Result<(), String>)
    ensures
        match written {
            Ok(()) => r is Ok,
            Err(err) => r matches Err(e) && e@ == write_failed_prefix() + err.message@,
        },
{
    match written {
        Ok(()) => Ok(()),
        Err(err) => {
            let mut e = string_of("写入 Windows 凭据管理器失败：");
            e.append(err.message.as_str());
            Err(e)
        },
    }
}

proof fn lemma_reported(prefix: Seq<char>, m: Seq<char>)
    requires
        store_error_text(m),
    ensures
        reported(prefix + m, prefix),
        (prefix + m).skip(prefix.len() as int) == m,
{
    assert((prefix + m).take(prefix.len() as int) =~= prefix);
    assert((prefix + m).skip(prefix.len() as int) =~= m);
}

/// What writing and checking `secret` did, given the requests it made (`reqs`)
/// and its result: the write of `secret`; when the store refused it, nothing
/// more, and the refusal reported after `写入 Windows 凭据管理器失败：`;
/// otherwise a read, and when it gave back `secret`, success; when it gave
/// back something else or failed, a delete and the error `密码写入校验失败`
/// or the failure reported after `密码已写入但回读失败：`.
pub open spec fn write_checked(reqs: Seq<StoreRequest>, secret: Seq<char>, r: Result<(), String>) -> bool {
    &&& reqs.len() >= 1
    &&& reqs[0] matches StoreRequest::Write(p, w)
    &&& p == secret
    &&& match w {
        StoreAnswer::Done => {
            &&& reqs.len() >= 2
            &&& reqs[1] matches StoreRequest::Read(a)
            &&& if a == StoreAnswer::Value(secret) {
                reqs.len() == 2 && r is Ok
            } else {
                &&& reqs.len() == 3
                &&& reqs[2] is Delete
                &&& r matches Err(e)
                &&& match a {
                    StoreAnswer::Value(_) => e@ == readback_mismatch_message(),
                    StoreAnswer::NoEntry => e@ == readback_failed_prefix() + no_entry_text(),
                    StoreAnswer::Failed(m) => e@ == readback_failed_prefix() + m,
                    StoreAnswer::Done => false,
                }
            }
        },
        StoreAnswer::NoEntry => reqs.len() == 1 && (r matches Err(e) && e@ == write_failed_prefix()
            + no_entry_text()),
        StoreAnswer::Failed(m) => reqs.len() == 1 && (r matches Err(e) && e@ == write_failed_prefix() + m),
        StoreAnswer::Value(_) => false,
    }
}

/// What reading a secret returned, given the read it made: the password read,
/// none when the store found no credential, or any other failure reported
/// after `读取 Windows 凭据管理器失败：`.
pub open spec fn read_reported(req: StoreRequest, r: Result<Option<String>, String>) -> bool {
    match req {
        StoreRequest::Read(StoreAnswer::Value(p)) => r matches Ok(Some(q)) && q@ == p,
        StoreRequest::Read(StoreAnswer::NoEntry) => r matches Ok(None),
        StoreRequest::Read(StoreAnswer::Failed(m)) => r matches Err(e) && e@ == read_failed_prefix() + m,
        _ => false,
    }
}

/// What deleting a credential returned, given the delete it made: success
/// when the store deleted it or found none, otherwise the failure reported
/// after `删除 Windows 凭据失败：`.
pub open spec fn delete_reported(req: StoreRequest, r: Result<(), String>) -> bool {
    match req {
        StoreRequest::Delete(StoreAnswer::Done) => r is Ok,
        StoreRequest::Delete(StoreAnswer::NoEntry) => r is Ok,
        StoreRequest::Delete(StoreAnswer::Failed(m)) => r matches Err(e) && e@ == delete_failed_prefix() + m,
        _ => false,
    }
}

/// Writes `secret` to the credential and reads it back; when the read fails
/// or gives back something else, the credential is deleted again. The result
/// follows from the store's answers as `write_checked` says.
pub fn write_and_verify(c: &mut Credential, secret: &String) -> (r: Result<(), String>)
    ensures
        final(c).service() == old(c).service(),
        final(c).user() == old(c).user(),
        final(c).requests().take(old(c).requests().len() as int) == old(c).requests(),
        write_checked(final(c).requests().skip(old(c).requests().len() as int), secret@, r),
        r matches Err(e) ==> {
            ||| reported(e@, write_failed_prefix())
            ||| reported(e@, readback_failed_prefix())
            ||| e@ == readback_mismatch_message()
        },
{
    let ghost start = c.requests();
    let ghost n = start.len() as int;
    let written = store_password(c, secret.as_str());
    let ghost w = unit_answer(written);
    proof {
        if let Err(err) = &written {
            lemma_reported(write_failed_prefix(), err.message@);
        }
    }
    match write_outcome(written) {
        Ok(()) => {},
        Err(e) => {
            assert(c.requests().skip(n) =~= seq![StoreRequest::Write(secret@, w)]);
            assert(c.requests().take(n) =~= start);
            return Err(e);
        },
    }
    let readback = read_password(c);
    let ghost a = read_answer(readback);
    proof {
        if let Err(err) = &readback {
            lemma_reported(readback_failed_prefix(), err.message@);
        }
    }
    match readback_verdict(&readback, secret) {
        Ok(()) => {
            assert(c.requests().skip(n) =~= seq![StoreRequest::Write(secret@, w), StoreRequest::Read(a)]);
            assert(c.requests().take(n) =~= start);
            Ok(())
        },
        Err(e) => {
            let deleted = remove_credential(c);
            let ghost d = unit_answer(deleted);
            assert(c.requests().skip(n) =~= seq![
                StoreRequest::Write(secret@, w),
                StoreRequest::Read(a),
                StoreRequest::Delete(d),
            ]);
            assert(c.requests().take(n) =~= start);
            Err(e)
        },
    }
}

/// Reads the credential's secret: the password read, none when the store
/// has none, or any other failure reported after
/// `读取 Windows 凭据管理器失败：` (see `read_reported`).
pub fn read_secret(c: &mut Credential) -> (r: Result<Option<String>, String>)
    ensures
        final(c).service() == old(c).service(),
        final(c).user() == old(c).user(),
        final(c).requests().len() == old(c).requests().len() + 1,
        final(c).requests().drop_last() == old(c).requests(),
        read_reported(final(c).requests().last(), r),
        r matches Err(e) ==> reported(e@, read_failed_prefix()) && e@.skip(read_failed_prefix().len() as int)
            != no_entry_text(),
{
    let read = read_password(c);
    proof {
        if let Err(err) = &read {
            lemma_reported(read_failed_prefix(), err.message@);
        }
    }
    read_outcome(read)
}

/// Deletes the credential: success when the store deleted it or found none,
/// otherwise the failure reported after `删除 Windows 凭据失败：` (see
/// `delete_reported`).
pub fn delete_credential(c: &mut Credential) -> (r: Result<(), String>)
    ensures
        final(c).service() == old(c).service(),
        final(c).user() == old(c).user(),
        final(c).requests().len() == old(c).requests().len() + 1,
        final(c).requests().drop_last() == old(c).requests(),
        delete_reported(final(c).requests().last(), r),
        r matches Err(e) ==> reported(e@, delete_failed_prefix()) && e@.skip(
            delete_failed_prefix().len() as int,
        ) != no_entry_text(),
{
    let deleted = remove_credential(c);
    proof {
        if let Err(err) = &deleted {
            lemma_reported(delete_failed_prefix(), err.message@);
        }
    }
    delete_outcome(deleted)
}

/// Writes a secret for `id` and checks that it reads back unchanged, on the
/// credential of `id` under the service `DBan` (see `entry` and
/// `write_and_verify`); what the store answers rests on the store. A failure
/// is reported as the store's error when no credential could be had, after
/// `写入 Windows 凭据管理器失败：` when the write was refused, after
/// `密码已写入但回读失败：` when reading back failed, or as `密码写入校验失败`
/// when what was read back differs.
pub fn save_secret(id: String, secret: String) -> (r: Result<(), String>)
    ensures
        r matches Err(e) ==> {
            ||| store_error_text(e@)
            ||| reported(e@, write_failed_prefix())
            ||| reported(e@, readback_failed_prefix())
            ||| e@ == readback_mismatch_message()
        },
{
    let mut credential = match entry(id.as_str()) {
        Ok(c) => c,
        Err(e) => return Err(e),
    };
    write_and_verify(&mut credential, &secret)
}

/// The secret stored for `id`, read from the credential of `id` under the
/// service `DBan` (see `entry` and `read_secret`): none when the store has
/// none; what the store answers rests on the store. A failure is reported as
/// the store's error when no credential could be had, or after
/// `读取 Windows 凭据管理器失败：` with a store error other than no entry.
pub fn get_secret(id: String) -> (r: Result<Option<String>, String>)
    ensures
        r matches Err(e) ==> {
            ||| store_error_text(e@)
            ||| reported(e@, read_failed_prefix()) && e@.skip(read_failed_prefix().len() as int)
                != no_entry_text()
        },
{
    let mut credential = match entry(id.as_str()) {
        Ok(c) => c,
        Err(e) => return Err(e),
    };
    read_secret(&mut credential)
}

/// Deletes the secret stored for `id`, on the credential of `id` under the
/// service `DBan` (see `entry` and `delete_credential`); deleting a missing
/// secret succeeds; what the store answers rests on the store. A failure is
/// reported as the store's error when no credential could be had, or after
/// `删除 Windows 凭据失败：` with a store error other than no entry.
pub fn delete_secret(id: String) -> (r: Result<(), String>)
    ensures
        r matches Err(e) ==> {
            ||| store_error_text(e@)
            ||| reported(e@, delete_failed_prefix()) && e@.skip(delete_failed_prefix().len() as int)
                != no_entry_text()
        },
{
    let mut credential = match entry(id.as_str()) {
        Ok(c) => c,
        Err(e) => return Err(e),
    };
    delete_credential(&mut credential)
}

// ---------------------------------------------------------------------------
// Vault entries
// ---------------------------------------------------------------------------

/// What the front end keeps of a vault entry; the secret itself stays in the
/// credential store under the entry's id.
pub struct VaultItem {
    pub id: String,
    pub site: String,
    pub account: String,
}

/// Some entry of `vaults` has the id `id`.
pub open spec fn vault_has(vaults: Seq<VaultItem>, id: Seq<char>) -> bool {
    exists|i: int| 0 <= i < vaults.len() && vaults[i].id@ == id
}

/// Whether an entry with this id exists.
pub fn has_vault_entry(vaults: &Vec<VaultItem>, id: &String) -> (b: bool)
    ensures
        b == vault_has(vaults@, id@),
{
    for i in 0..vaults.len()
        invariant
            forall|k: int| 0 <= k < i ==> vaults@[k].id@ != id@,
    {
        if vaults[i].id == *id {
            return true;
        }
    }
    false
}

/// The message when an entry's id is already taken.
pub open spec fn duplicate_entry_message() -> Seq<char> {
    "密码条目已存在"@
}

/// The entries after adding `item`: refused when its id is taken, else the
/// entries with `item` appended.
pub fn add_vault_entry(vaults: Vec<VaultItem>, item: VaultItem) -> (r: Result<Vec<VaultItem>, String>)
    ensures
        match r {
            Ok(v) => !vault_has(vaults@, item.id@) && v@ == vaults@.push(item),
            Err(e) => vault_has(vaults@, item.id@) && e@ == duplicate_entry_message(),
        },
{
    if has_vault_entry(&vaults, &item.id) {
        Err(string_of("密码条目已存在"))
    } else {
        let mut v = vaults;
        v.push(item);
        Ok(v)
    }
}

/// The entries without those whose id is `id`, in their order.
pub open spec fn vaults_without(vaults: Seq<VaultItem>, id: Seq<char>) -> Seq<VaultItem> {
    vaults.filter(|v: VaultItem| v.id@ != id)
}

impl VaultItem {
    /// A copy of the entry.
    pub fn duplicate(&self) -> (r: VaultItem)
        ensures
            r == *self,
    {
        VaultItem { id: self.id.clone(), site: self.site.clone(), account: self.account.clone() }
    }
}

proof fn lemma_filter_push(s: Seq<VaultItem>, x: VaultItem, id: Seq<char>)
    ensures
        vaults_without(s.push(x), id) == if x.id@ != id {
            vaults_without(s, id).push(x)
        } else {
            vaults_without(s, id)
        },
{
    reveal(Seq::filter);
    assert(s.push(x).drop_last() == s);
}

/// Removes every entry with the id `id`.
pub fn remove_vault_item(vaults: &Vec<VaultItem>, id: &String) -> (r: Vec<VaultItem>)
    ensures
        r@ == vaults_without(vaults@, id@),
{
    let mut r: Vec<VaultItem> = Vec::new();
    for i in 0..vaults.len()
        invariant
            r@ == vaults_without(vaults@.take(i as int), id@),
    {
        proof {
            lemma_filter_push(vaults@.take(i as int), vaults@[i as int], id@);
            assert(vaults@.take(i + 1) == vaults@.take(i as int).push(vaults@[i as int]));
        }
        if vaults[i].id != *id {
            r.push(vaults[i].duplicate());
        }
    }
    assert(vaults@.take(vaults.len() as int) == vaults@);
    r
}

/// A stored id can be removed: after removal no entry has it, and adding
/// an entry with a fresh id and then removing that id gives back the entries
/// as they were, when none had that id before.
pub proof fn add_then_remove_restores(vaults: Seq<VaultItem>, item: VaultItem)
    requires
        !vault_has(vaults, item.id@),
    ensures
        vaults_without(vaults.push(item), item.id@) == vaults,
        !vault_has(vaults_without(vaults, item.id@), item.id@),
{
    lemma_filter_push(vaults, item, item.id@);
    lemma_without_absent(vaults, item.id@);
    lemma_without_removes(vaults, item.id@);
}

proof fn lemma_without_absent(s: Seq<VaultItem>, id: Seq<char>)
    requires
        !vault_has(s, id),
    ensures
        vaults_without(s, id) == s,
    decreases s.len(),
{
    if s.len() > 0 {
        let t = s.drop_last();
        assert(s == t.push(s.last()));
        assert(!vault_has(t, id)) by {
            if vault_has(t, id) {
                let i = choose|i: int| 0 <= i < t.len() && t[i].id@ == id;
                assert(s[i] == t[i]);
            }
        }
        lemma_without_absent(t, id);
        lemma_filter_push(t, s.last(), id);
    }
}

proof fn lemma_without_removes(s: Seq<VaultItem>, id: Seq<char>)
    ensures
        !vault_has(vaults_without(s, id), id),
    decreases s.len(),
{
    if s.len() > 0 {
        let t = s.drop_last();
        assert(s == t.push(s.last()));
        lemma_without_removes(t, id);
        lemma_filter_push(t, s.last(), id);
        if vault_has(vaults_without(s, id), id) {
            let i = choose|i: int| 0 <= i < vaults_without(s, id).len() && vaults_without(s, id)[i].id@ == id;
            if s.last().id@ != id {
                if i < vaults_without(t, id).len() {
                    assert(vaults_without(s, id)[i] == vaults_without(t, id)[i]);
                }
            }
        }
    }
}

/// Whether the clipboard still holding `secret` should be cleared: only when
/// reading it succeeded and it still holds exactly the copied secret.
pub fn should_clear_clipboard(current: &Option<String>, secret: &String) -> (b: bool)
    ensures
        b == (current matches Some(c) && c@ == secret@),
{
    match current {
        Some(c) => *c == *secret,
        None => false,
    }
}

/// The message when the entry to copy has no stored secret.
pub fn missing_secret_message() -> (s: String)
    ensures
        s@ == "条目不存在"@,
{
    string_of("条目不存在")
}

} // verus!
