use vstd::prelude::*;

use crate::crypto::{decryption_of, CipherToken, MasterKey};
use crate::errors::VaultError;

verus! {

/// One logical account entry, every field plaintext in memory.
#[derive(Clone)]
pub struct Account {
    pub id: String,
    pub title: String,
    pub username: String,
    pub password: String,
    pub url: String,
}

/// The mathematical value of an account: its five fields as character
/// sequences.
pub ghost struct AccountView {
    pub id: Seq<char>,
    pub title: Seq<char>,
    pub username: Seq<char>,
    pub password: Seq<char>,
    pub url: Seq<char>,
}

impl View for Account {
    type V = AccountView;

    open spec fn view(&self) -> AccountView {
        AccountView {
            id: self.id@,
            title: self.title@,
            username: self.username@,
            password: self.password@,
            url: self.url@,
        }
    }
}

/// The persisted form of an account: the identifier in clear — identifiers
/// are not secret, and a randomized token could never be matched again —
/// and every confidential field as an independently produced cipher token.
pub struct VaultRecord {
    pub id: String,
    pub title: CipherToken,
    pub username: CipherToken,
    pub password: CipherToken,
    pub url: CipherToken,
}

/// The mathematical value of a stored row: the identifier in clear, the
/// other four cells as token text.
pub ghost struct RecordView {
    pub id: Seq<char>,
    pub title: Seq<char>,
    pub username: Seq<char>,
    pub password: Seq<char>,
    pub url: Seq<char>,
}

impl View for VaultRecord {
    type V = RecordView;

    open spec fn view(&self) -> RecordView {
        RecordView {
            id: self.id@,
            title: self.title@,
            username: self.username@,
            password: self.password@,
            url: self.url@,
        }
    }
}

impl VaultRecord {
    /// An exact copy of the row.
    pub fn duplicate(&self) -> (r: VaultRecord)
        ensures
            r@ == self@,
    {
        VaultRecord {
            id: self.id.clone(),
            title: self.title.duplicate(),
            username: self.username.duplicate(),
            password: self.password.duplicate(),
            url: self.url.duplicate(),
        }
    }
}

/// The stored row `r` holds exactly the account `a` under `key`: the same
/// identifier in clear, and each confidential cell a token that decrypts
/// under `key` to the account's field.
pub open spec fn record_stores(r: RecordView, key: Seq<char>, a: AccountView) -> bool {
    &&& r.id == a.id
    &&& decryption_of(r.title, key) == Some(a.title)
    &&& decryption_of(r.username, key) == Some(a.username)
    &&& decryption_of(r.password, key) == Some(a.password)
    &&& decryption_of(r.url, key) == Some(a.url)
}

/// Every encrypted cell of `r` authenticates and decrypts under `key`.
pub open spec fn record_decryptable(r: RecordView, key: Seq<char>) -> bool {
    &&& decryption_of(r.title, key) is Some
    &&& decryption_of(r.username, key) is Some
    &&& decryption_of(r.password, key) is Some
    &&& decryption_of(r.url, key) is Some
}

/// The four editable fields of an account. The identifier is not among
/// them: it is the lookup key of a record and never changes.
#[derive(Clone, Copy, PartialEq, Eq, Structural, Debug)]
pub enum FieldName {
    Title,
    Username,
    Password,
    Url,
}

/// `x` and `y` are the same character up to ASCII case.
pub open spec fn char_eq_nocase(x: char, y: char) -> bool {
    let xu = x as u32;
    let yu = y as u32;
    ||| xu == yu
    ||| (65 <= xu && xu <= 90 && xu + 32 == yu)
    ||| (65 <= yu && yu <= 90 && yu + 32 == xu)
}

/// `a` and `b` agree character by character, up to ASCII case.
pub open spec fn str_eq_nocase(a: Seq<char>, b: Seq<char>) -> bool {
    a.len() == b.len() && (forall|i: int| 0 <= i < a.len() ==> char_eq_nocase(a[i], b[i]))
}

/// Which editable field `s` names, compared without regard to ASCII case;
/// `None` for every unrecognized name.
pub open spec fn field_of_name(s: Seq<char>) -> Option<FieldName> {
    if str_eq_nocase(s, "title"@) {
        Some(FieldName::Title)
    } else if str_eq_nocase(s, "username"@) {
        Some(FieldName::Username)
    } else if str_eq_nocase(s, "password"@) {
        Some(FieldName::Password)
    } else if str_eq_nocase(s, "url"@) {
        Some(FieldName::Url)
    } else {
        None
    }
}

fn char_eq_nocase_exec(x: char, y: char) -> (r: bool)
    ensures
        r == char_eq_nocase(x, y),
{
    let xu = x as u32;
    let yu = y as u32;
    xu == yu || (65 <= xu && xu <= 90 && xu + 32 == yu) || (65 <= yu && yu <= 90 && yu + 32 == xu)
}

fn str_eq_nocase_exec(a: &str, b: &str) -> (r: bool)
    ensures
        r == str_eq_nocase(a@, b@),
{
    let alen = a.unicode_len();
    let blen = b.unicode_len();
    if alen != blen {
        return false;
    }
    let mut i: usize = 0;
    while i < alen
        invariant
            alen == a@.len(),
            blen == b@.len(),
            alen == blen,
            i <= alen,
            forall|j: int| 0 <= j < i ==> char_eq_nocase(a@[j], b@[j]),
        decreases alen - i,
    {
        if !char_eq_nocase_exec(a.get_char(i), b.get_char(i)) {
            return false;
        }
        i = i + 1;
    }
    true
}

/// `a` and `b` are the same text.
fn str_eq_exec(a: &str, b: &str) -> (r: bool)
    ensures
        r == (a@ == b@),
{
    let alen = a.unicode_len();
    let blen = b.unicode_len();
    if alen != blen {
        return false;
    }
    let mut i: usize = 0;
    while i < alen
        invariant
            alen == a@.len(),
            blen == b@.len(),
            alen == blen,
            i <= alen,
            forall|j: int| 0 <= j < i ==> a@[j] == b@[j],
        decreases alen - i,
    {
        if a.get_char(i) != b.get_char(i) {
            return false;
        }
        i = i + 1;
    }
    proof {
        assert(a@ =~= b@);
    }
    true
}

impl FieldName {
    /// Parses a field name, ignoring ASCII case. An unrecognized name is a
    /// validation error, never a silently ignored edit.
    pub fn parse(name: &str) -> (r: Result<FieldName, VaultError>)
        ensures
            r matches Ok(f) ==> field_of_name(name@) == Some(f),
            r matches Err(e) ==> e == VaultError::Validation && field_of_name(name@) is None,
    {
        if str_eq_nocase_exec(name, "title") {
            Ok(FieldName::Title)
        } else if str_eq_nocase_exec(name, "username") {
            Ok(FieldName::Username)
        } else if str_eq_nocase_exec(name, "password") {
            Ok(FieldName::Password)
        } else if str_eq_nocase_exec(name, "url") {
            Ok(FieldName::Url)
        } else {
            Err(VaultError::Validation)
        }
    }
}

/// `post` is `pre` with the one named field resealed so that it decrypts
/// under `key` to `value`; the identifier and the other cells are untouched.
pub open spec fn record_updated(
    pre: RecordView,
    post: RecordView,
    field: FieldName,
    key: Seq<char>,
    value: Seq<char>,
) -> bool {
    &&& post.id == pre.id
    &&& (match field {
        FieldName::Title => {
            &&& decryption_of(post.title, key) == Some(value)
            &&& post.username == pre.username
            &&& post.password == pre.password
            &&& post.url == pre.url
        },
        FieldName::Username => {
            &&& decryption_of(post.username, key) == Some(value)
            &&& post.title == pre.title
            &&& post.password == pre.password
            &&& post.url == pre.url
        },
        FieldName::Password => {
            &&& decryption_of(post.password, key) == Some(value)
            &&& post.title == pre.title
            &&& post.username == pre.username
            &&& post.url == pre.url
        },
        FieldName::Url => {
            &&& decryption_of(post.url, key) == Some(value)
            &&& post.title == pre.title
            &&& post.username == pre.username
            &&& post.password == pre.password
        },
    })
}

/// A vault: the one master key and the stored rows, in storage order. The
/// caller reads the rows from the row store and hands them in; `rows` gives
/// them back for persisting.
pub struct Vault {
    key: MasterKey,
    records: Vec<VaultRecord>,
}

impl Vault {
    /// The stored rows as values, in storage order.
    pub closed spec fn view(&self) -> Seq<RecordView> {
        self.records@.map_values(|r: VaultRecord| r@)
    }

    /// The text of the key this vault seals and opens records with.
    pub closed spec fn key_text(&self) -> Seq<char> {
        self.key@
    }

    /// The vault's key is one the cipher accepts.
    pub closed spec fn wf(&self) -> bool {
        self.key.wf()
    }

    /// A fresh vault with no records.
    pub fn new(key: MasterKey) -> (v: Vault)
        requires
            key.wf(),
        ensures
            v.wf(),
            v.key_text() == key@,
            v@ =~= Seq::<RecordView>::empty(),
    {
        Vault { key, records: Vec::new() }
    }

    /// Opens a vault over the rows read back from the row store.
    pub fn load(key: MasterKey, records: Vec<VaultRecord>) -> (v: Vault)
        requires
            key.wf(),
        ensures
            v.wf(),
            v.key_text() == key@,
            v@.len() == records@.len(),
            forall|i: int| 0 <= i < records@.len() ==> v@[i] == records@[i]@,
    {
        Vault { key, records }
    }

    /// The stored rows, for the caller to persist.
    pub fn rows(&self) -> (r: &Vec<VaultRecord>)
        ensures
            r@.len() == self@.len(),
            forall|i: int| 0 <= i < r@.len() ==> r@[i]@ == self@[i],
    {
        &self.records
    }

    /// The number of stored records.
    pub fn len(&self) -> (n: usize)
        ensures
            n == self@.len(),
    {
        self.records.len()
    }

    /// Seals every field of `account` and appends the row. All five cells
    /// are produced before the row is formed, so no partial row ever
    /// exists; the new row holds exactly `account` under the vault's key.
    pub fn insert(&mut self, account: &Account)
        requires
            old(self).wf(),
        ensures
            final(self).wf(),
            final(self).key_text() == old(self).key_text(),
            final(self)@.len() == old(self)@.len() + 1,
            forall|i: int| 0 <= i < old(self)@.len() ==> final(self)@[i] == old(self)@[i],
            record_stores(final(self)@.last(), final(self).key_text(), account@),
    {
        let rec = VaultRecord {
            id: account.id.clone(),
            title: self.key.encrypt(account.title.as_str()),
            username: self.key.encrypt(account.username.as_str()),
            password: self.key.encrypt(account.password.as_str()),
            url: self.key.encrypt(account.url.as_str()),
        };
        self.records.push(rec);
    }

    /// Opens one stored row: the account it holds, or a decryption error
    /// when any cell fails to authenticate — never partial plaintext.
    pub fn decrypt_record(&self, rec: &VaultRecord) -> (r: Result<Account, VaultError>)
        requires
            self.wf(),
        ensures
            (match r {
                Ok(a) => record_stores(rec@, self.key_text(), a@),
                Err(e) => e == VaultError::Decryption && !record_decryptable(
                    rec@,
                    self.key_text(),
                ),
            }),
    {
        let title = match self.key.decrypt(&rec.title) {
            Ok(s) => s,
            Err(e) => {
                return Err(e);
            },
        };
        let username = match self.key.decrypt(&rec.username) {
            Ok(s) => s,
            Err(e) => {
                return Err(e);
            },
        };
        let password = match self.key.decrypt(&rec.password) {
            Ok(s) => s,
            Err(e) => {
                return Err(e);
            },
        };
        let url = match self.key.decrypt(&rec.url) {
            Ok(s) => s,
            Err(e) => {
                return Err(e);
            },
        };
        Ok(Account { id: rec.id.clone(), title, username, password, url })
    }

    /// Opens every row, in storage order. Each row yields the account it
    /// stores, or its own decryption error; one bad row never aborts the
    /// listing.
    pub fn list(&self) -> (r: Vec<Result<Account, VaultError>>)
        requires
            self.wf(),
        ensures
            r@.len() == self@.len(),
            forall|i: int| 0 <= i < r@.len() ==> (match #[trigger] r@[i] {
                Ok(a) => record_stores(self@[i], self.key_text(), a@),
                Err(e) => e == VaultError::Decryption && !record_decryptable(
                    self@[i],
                    self.key_text(),
                ),
            }),
    {
        let mut out: Vec<Result<Account, VaultError>> = Vec::new();
        let mut i: usize = 0;
        while i < self.records.len()
            invariant
                self.wf(),
                i <= self.records@.len(),
                out@.len() == i,
                forall|j: int| 0 <= j < i ==> (match #[trigger] out@[j] {
                    Ok(a) => record_stores(self@[j], self.key_text(), a@),
                    Err(e) => e == VaultError::Decryption && !record_decryptable(
                        self@[j],
                        self.key_text(),
                    ),
                }),
            decreases self.records@.len() - i,
        {
            let entry = self.decrypt_record(&self.records[i]);
            out.push(entry);
            i = i + 1;
        }
        out
    }

    /// Reseals `new_value` into the one named field of every row whose
    /// identifier matches `id`; every other cell of every row is untouched.
    /// Zero matching rows is a distinct not-found outcome, never a silent
    /// success.
    pub fn update(&mut self, id: &str, field: FieldName, new_value: &str) -> (r: Result<
        (),
        VaultError,
    >)
        requires
            old(self).wf(),
        ensures
            final(self).wf(),
            final(self).key_text() == old(self).key_text(),
            final(self)@.len() == old(self)@.len(),
            forall|i: int| 0 <= i < old(self)@.len() ==> (if old(self)@[i].id == id@ {
                record_updated(
                    old(self)@[i],
                    final(self)@[i],
                    field,
                    old(self).key_text(),
                    new_value@,
                )
            } else {
                final(self)@[i] == old(self)@[i]
            }),
            r is Ok <==> (exists|i: int| 0 <= i < old(self)@.len() && old(self)@[i].id == id@),
            r matches Err(e) ==> e == VaultError::NotFound,
    {
        let mut found = false;
        let mut i: usize = 0;
        while i < self.records.len()
            invariant
                old(self).wf(),
                self.key == old(self).key,
                i <= self.records@.len(),
                self.records@.len() == old(self).records@.len(),
                forall|j: int| i <= j < self.records@.len() ==> self.records@[j]
                    == old(self).records@[j],
                forall|j: int| 0 <= j < i ==> (if old(self)@[j].id == id@ {
                    record_updated(old(self)@[j], self@[j], field, old(self).key_text(), new_value@)
                } else {
                    self@[j] == old(self)@[j]
                }),
                found <==> (exists|j: int| 0 <= j < i && old(self)@[j].id == id@),
            decreases self.records@.len() - i,
        {
            if str_eq_exec(self.records[i].id.as_str(), id) {
                proof {
                    assert(0 <= i < i + 1 && old(self)@[i as int].id == id@);
                }
                let tok = self.key.encrypt(new_value);
                match field {
                    FieldName::Title => {
                        self.records[i].title = tok;
                    },
                    FieldName::Username => {
                        self.records[i].username = tok;
                    },
                    FieldName::Password => {
                        self.records[i].password = tok;
                    },
                    FieldName::Url => {
                        self.records[i].url = tok;
                    },
                }
                found = true;
            } else {
                proof {
                    assert(old(self)@[i as int].id != id@);
                    assert(forall|j: int| 0 <= j < i + 1 && old(self)@[j].id == id@ ==> 0 <= j < i);
                }
            }
            i = i + 1;
        }
        if found {
            Ok(())
        } else {
            Err(VaultError::NotFound)
        }
    }

    /// Removes every row whose identifier matches `id`, keeping the others
    /// in order. Zero matching rows is a distinct not-found outcome, never
    /// a silent success.
    pub fn delete(&mut self, id: &str) -> (r: Result<(), VaultError>)
        requires
            old(self).wf(),
        ensures
            final(self).wf(),
            final(self).key_text() == old(self).key_text(),
            final(self)@ == old(self)@.filter(|rv: RecordView| rv.id != id@),
            r is Ok <==> (exists|i: int| 0 <= i < old(self)@.len() && old(self)@[i].id == id@),
            r matches Err(e) ==> e == VaultError::NotFound,
    {
        let ghost pred = |rv: RecordView| rv.id != id@;
        let mut kept: Vec<VaultRecord> = Vec::new();
        let mut found = false;
        let mut i: usize = 0;
        proof {
            assert(old(self)@.subrange(0, 0) =~= Seq::<RecordView>::empty());
            lemma_filter_empty(pred);
        }
        while i < self.records.len()
            invariant
                self == old(self),
                old(self).wf(),
                i <= self.records@.len(),
                kept@.map_values(|r: VaultRecord| r@) == old(self)@.subrange(0, i as int).filter(
                    pred,
                ),
                pred == (|rv: RecordView| rv.id != id@),
                found <==> (exists|j: int| 0 <= j < i && old(self)@[j].id == id@),
            decreases self.records@.len() - i,
        {
            let ghost prev = old(self)@.subrange(0, i as int);
            let ghost kept_prev = kept@.map_values(|r: VaultRecord| r@);
            if str_eq_exec(self.records[i].id.as_str(), id) {
                found = true;
                proof {
                    assert(0 <= i < i + 1 && old(self)@[i as int].id == id@);
                }
            } else {
                kept.push(self.records[i].duplicate());
                proof {
                    assert(kept@.map_values(|r: VaultRecord| r@) =~= kept_prev.push(self@[i as int]));
                    assert(old(self)@[i as int].id != id@);
                    assert(forall|j: int| 0 <= j < i + 1 && old(self)@[j].id == id@ ==> 0 <= j < i);
                }
            }
            proof {
                assert(old(self)@.subrange(0, i + 1) =~= prev.push(old(self)@[i as int]));
                lemma_filter_push(prev, old(self)@[i as int], pred);
            }
            i = i + 1;
        }
        proof {
            assert(old(self)@.subrange(0, old(self)@.len() as int) =~= old(self)@);
        }
        self.records = kept;
        if found {
            Ok(())
        } else {
            Err(VaultError::NotFound)
        }
    }

    /// Removes every record. The vault's key is untouched: purging records
    /// does not rotate or destroy the key.
    pub fn purge(&mut self)
        requires
            old(self).wf(),
        ensures
            final(self).wf(),
            final(self).key_text() == old(self).key_text(),
            final(self)@ =~= Seq::<RecordView>::empty(),
    {
        self.records = Vec::new();
    }
}

/// A row that stores an account is fully decryptable, so listing it is owed
/// an account, never an error: inserting and then listing round-trips.
pub proof fn lemma_stores_implies_decryptable(r: RecordView, key: Seq<char>, a: AccountView)
    requires
        record_stores(r, key, a),
    ensures
        record_decryptable(r, key),
{
}

/// A stored row determines its account: decryption is a function of the
/// token and the key, so an intact row can never list back as altered
/// plaintext — what was sealed is the one thing that can come out.
pub proof fn lemma_stored_account_unique(
    r: RecordView,
    key: Seq<char>,
    a: AccountView,
    b: AccountView,
)
    requires
        record_stores(r, key, a),
        record_stores(r, key, b),
    ensures
        a == b,
{
}

proof fn lemma_filter_empty(pred: spec_fn(RecordView) -> bool)
    ensures
        Seq::<RecordView>::empty().filter(pred) =~= Seq::<RecordView>::empty(),
{
    reveal(Seq::filter);
}

proof fn lemma_filter_push(s: Seq<RecordView>, x: RecordView, pred: spec_fn(RecordView) -> bool)
    ensures
        s.push(x).filter(pred) == (if pred(x) {
            s.filter(pred).push(x)
        } else {
            s.filter(pred)
        }),
{
    reveal(Seq::filter);
    assert(s.push(x).drop_last() =~= s);
    assert(s.push(x).last() == x);
}

} // verus!
