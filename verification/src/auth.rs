//! Accounts of the web service: users with bcrypt password hashes, looked
//! up by user name, registered with length rules on name and password.
use crate::models::local_time_text;
use crate::text::{push_str, utf8_len};
use vstd::prelude::*;

verus! {

/// What a user may do.
#[derive(PartialEq, Eq, Structural, Clone, Copy, Debug)]
pub enum UserRole {
    Admin,
    Auditor,
    Viewer,
}

/// The name a role is shown by.
pub open spec fn role_text(r: UserRole) -> Seq<char> {
    match r {
        UserRole::Admin => "管理员"@,
        UserRole::Auditor => "审计员"@,
        UserRole::Viewer => "查看者"@,
    }
}

impl UserRole {
    /// The name the role is shown by.
    pub fn to_text(&self) -> (r: String)
        ensures
            r@ == role_text(*self),
    {
        match self {
            UserRole::Admin => String::from_str("管理员"),
            UserRole::Auditor => String::from_str("审计员"),
            UserRole::Viewer => String::from_str("查看者"),
        }
    }
}

/// An account.
#[derive(Debug)]
pub struct User {
    pub username: String,
    pub password_hash: String,
    pub display_name: String,
    pub role: UserRole,
    /// When it was made, as local time `%Y-%m-%d %H:%M:%S`.
    pub created_at: String,
}

/// The spec form of an account.
pub struct UserView {
    pub username: Seq<char>,
    pub password_hash: Seq<char>,
    pub display_name: Seq<char>,
    pub role: UserRole,
    pub created_at: Seq<char>,
}

impl View for User {
    type V = UserView;

    open spec fn view(&self) -> UserView {
        UserView {
            username: self.username@,
            password_hash: self.password_hash@,
            display_name: self.display_name@,
            role: self.role,
            created_at: self.created_at@,
        }
    }
}

impl User {
    /// A copy of the account.
    pub fn duplicate(&self) -> (r: User)
        ensures
            r@ == self@,
    {
        User {
            username: self.username.clone(),
            password_hash: self.password_hash.clone(),
            display_name: self.display_name.clone(),
            role: self.role,
            created_at: self.created_at.clone(),
        }
    }
}

/// What `bcrypt::verify` answers for a password and a stored hash: `None`
/// where the hash is malformed, else whether the password matches it.
pub uninterp spec fn bcrypt_verify(password: Seq<char>, hash: Seq<char>) -> Option<bool>;

/// `bcrypt::hash` of the password's UTF-8 bytes at the given cost. The salt
/// is drawn from the operating system, so the hash itself is left unnamed;
/// what is stated is that `bcrypt::verify` accepts the password against a
/// hash it made, and that it only fails where the OS gives no randomness.
#[verifier::external_body]
fn bcrypt_hash(password: &str, cost: u32) -> (r: Result<String, String>)
    requires
        4 <= cost <= 31,
    ensures
        r matches Ok(h) ==> bcrypt_verify(password@, h@) == Some(true),
{
    match bcrypt::hash(password, cost) {
        Ok(h) => Ok(h),
        Err(e) => Err(e.to_string()),
    }
}

/// `bcrypt::verify` of a password against a stored hash, its error taken as
/// `None`.
#[verifier::external_body]
fn bcrypt_check(password: &str, hash: &str) -> (r: Option<bool>)
    ensures
        r == bcrypt_verify(password@, hash@),
{
    match bcrypt::verify(password, hash) {
        Ok(b) => Some(b),
        Err(_) => None,
    }
}

/// The message of a refusal because the hash could not be made.
pub open spec fn hash_failure_message(e: Seq<char>) -> bool {
    e.len() >= "密码加密失败: "@.len() && e.subrange(0, "密码加密失败: "@.len() as int) == "密码加密失败: "@
}

/// The cost factor passwords are hashed with (bcrypt's default).
pub const HASH_COST: u32 = 12;

/// The accounts of a list, each under its user name (a later entry under
/// the same name would hide an earlier one; the store keeps names unique).
pub open spec fn accounts_of(users: Seq<UserView>) -> Map<Seq<char>, UserView>
    decreases users.len(),
{
    if users.len() == 0 {
        Map::empty()
    } else {
        accounts_of(users.drop_last()).insert(users.last().username, users.last())
    }
}

pub open spec fn names_unique(users: Seq<UserView>) -> bool {
    forall|i: int, j: int|
        0 <= i < users.len() && 0 <= j < users.len() && i != j ==> #[trigger] users[i].username
            != #[trigger] users[j].username
}

pub open spec fn users_view(users: Seq<User>) -> Seq<UserView> {
    users.map_values(|u: User| u@)
}

proof fn lemma_accounts_found(users: Seq<UserView>, i: int)
    requires
        names_unique(users),
        0 <= i < users.len(),
    ensures
        accounts_of(users).dom().contains(users[i].username),
        accounts_of(users)[users[i].username] == users[i],
    decreases users.len(),
{
    if i < users.len() - 1 {
        let prefix = users.drop_last();
        assert(names_unique(prefix));
        assert(prefix[i] == users[i]);
        lemma_accounts_found(prefix, i);
        assert(users.last().username != users[i].username);
    }
}

proof fn lemma_accounts_absent(users: Seq<UserView>, name: Seq<char>)
    requires
        forall|i: int| 0 <= i < users.len() ==> #[trigger] users[i].username != name,
    ensures
        !accounts_of(users).dom().contains(name),
    decreases users.len(),
{
    if users.len() > 0 {
        let prefix = users.drop_last();
        assert forall|i: int| 0 <= i < prefix.len() implies #[trigger] prefix[i].username != name by {
            assert(prefix[i] == users[i]);
        }
        lemma_accounts_absent(prefix, name);
    }
}

/// The accounts, kept in memory with user names unique.
pub struct UserStore {
    users: Vec<User>,
}

impl UserStore {
    #[verifier::type_invariant]
    spec fn names_distinct(self) -> bool {
        names_unique(users_view(self.users@))
    }

    /// The accounts, each under its user name.
    pub closed spec fn accounts(self) -> Map<Seq<char>, UserView> {
        accounts_of(users_view(self.users@))
    }

    /// The index of the account with the given name, if any.
    fn position(&self, username: &str) -> (r: Option<usize>)
        ensures
            r matches Some(i) ==> i < self.users@.len() && self.users@[i as int].username@ == username@,
            r is None ==> forall|i: int| 0 <= i < self.users@.len() ==> #[trigger] self.users@[i].username@ != username@,
    {
        let mut i: usize = 0;
        while i < self.users.len()
            invariant
                i <= self.users@.len(),
                forall|k: int| 0 <= k < i ==> #[trigger] self.users@[k].username@ != username@,
            decreases self.users.len() - i,
        {
            if crate::text::str_eq(self.users[i].username.as_str(), username) {
                return Some(i);
            }
            i = i + 1;
        }
        None
    }

    fn lookup(&self, username: &str) -> (r: Option<usize>)
        ensures
            r matches Some(i) ==> i < self.users@.len() && self.accounts().dom().contains(username@)
                && self.accounts()[username@] == self.users@[i as int]@,
            r is None ==> !self.accounts().dom().contains(username@),
    {
        proof {
            use_type_invariant(self);
        }
        let r = self.position(username);
        proof {
            let vs = users_view(self.users@);
            match r {
                Some(i) => {
                    lemma_accounts_found(vs, i as int);
                },
                None => {
                    assert forall|k: int| 0 <= k < vs.len() implies #[trigger] vs[k].username != username@ by {
                        assert(vs[k] == self.users@[k]@);
                    }
                    lemma_accounts_absent(vs, username@);
                },
            }
        }
        r
    }

    fn default_account(username: &str, password: &str, display_name: &str, role: UserRole) -> (r: Result<User, String>)
        ensures
            r matches Ok(u) ==> {
                &&& u.username@ == username@
                &&& u.display_name@ == display_name@
                &&& u.role == role
                &&& bcrypt_verify(password@, u.password_hash@) == Some(true)
            },
    {
        let hash = bcrypt_hash(password, HASH_COST)?;
        Ok(
            User {
                username: String::from_str(username),
                password_hash: hash,
                display_name: String::from_str(display_name),
                role,
                created_at: local_time_text(),
            },
        )
    }

    /// A store with the two built-in accounts: `admin` (password `admin123`,
    /// an administrator) and `auditor` (password `audit123`, an auditor).
    /// Their hashes need a salt from the operating system; where it gives
    /// none, bcrypt's error comes back instead.
    pub fn new() -> (r: Result<UserStore, String>)
        ensures
            r matches Ok(store) ==> {
                &&& store.accounts().dom() =~= set!["admin"@, "auditor"@]
                &&& store.accounts()["admin"@].display_name == "系统管理员"@
                &&& store.accounts()["admin"@].role == UserRole::Admin
                &&& bcrypt_verify("admin123"@, store.accounts()["admin"@].password_hash) == Some(true)
                &&& store.accounts()["auditor"@].display_name == "审计员"@
                &&& store.accounts()["auditor"@].role == UserRole::Auditor
                &&& bcrypt_verify("audit123"@, store.accounts()["auditor"@].password_hash) == Some(true)
            },
    {
        let admin = Self::default_account("admin", "admin123", "系统管理员", UserRole::Admin)?;
        let auditor = Self::default_account("auditor", "audit123", "审计员", UserRole::Auditor)?;
        proof {
            reveal_strlit("admin");
            reveal_strlit("auditor");
            assert("admin"@.len() == 5);
            assert("auditor"@.len() == 7);
        }
        assert(admin.username@ != auditor.username@);
        let mut users: Vec<User> = Vec::new();
        users.push(admin);
        users.push(auditor);
        let r = UserStore { users };
        proof {
            let vs = users_view(r.users@);
            assert(vs.len() == 2);
            assert(vs.drop_last().drop_last() =~= Seq::<UserView>::empty());
            assert(vs.drop_last().last() == vs[0]);
            assert(vs[0] == admin@ && vs[1] == auditor@);
            reveal_with_fuel(accounts_of, 3);
            assert(accounts_of(vs) =~= Map::<Seq<char>, UserView>::empty().insert(vs[0].username, vs[0]).insert(
                vs[1].username,
                vs[1],
            ));
        }
        Ok(r)
    }

    /// The account of `username`, where `password` matches its hash.
    pub fn verify(&self, username: &str, password: &str) -> (r: Option<User>)
        ensures
            r is Some <==> self.accounts().dom().contains(username@) && bcrypt_verify(
                password@,
                self.accounts()[username@].password_hash,
            ) == Some(true),
            r matches Some(u) ==> u@ == self.accounts()[username@],
    {
        match self.lookup(username) {
            Some(i) => {
                let user = &self.users[i];
                match bcrypt_check(password, user.password_hash.as_str()) {
                    Some(true) => Some(user.duplicate()),
                    _ => None,
                }
            },
            None => None,
        }
    }

    /// Adds an account; refused where the name is taken, is shorter than
    /// three bytes, or the password is shorter than six bytes, and where the
    /// hash cannot be made.
    pub fn register(&mut self, username: &str, password: &str, display_name: &str, role: UserRole) -> (r: Result<User, String>)
        ensures
            old(self).accounts().dom().contains(username@) ==> (r matches Err(e) && e@ == "用户名已存在"@),
            !old(self).accounts().dom().contains(username@) && utf8_len(username@) < 3 ==> (r matches Err(e)
                && e@ == "用户名至少3个字符"@),
            !old(self).accounts().dom().contains(username@) && utf8_len(username@) >= 3
                && utf8_len(password@) < 6 ==> (r matches Err(e) && e@ == "密码至少6个字符"@),
            !old(self).accounts().dom().contains(username@) && utf8_len(username@) >= 3
                && utf8_len(password@) >= 6 ==> r is Ok || (r matches Err(e) && hash_failure_message(e@)),
            r is Err ==> final(self).accounts() == old(self).accounts(),
            r matches Ok(u) ==> {
                &&& u.username@ == username@
                &&& u.display_name@ == display_name@
                &&& u.role == role
                &&& bcrypt_verify(password@, u.password_hash@) == Some(true)
                &&& final(self).accounts() == old(self).accounts().insert(username@, u@)
            },
    {
        proof {
            use_type_invariant(&*self);
        }
        if self.lookup(username).is_some() {
            return Err(String::from_str("用户名已存在"));
        }
        if username.as_bytes().len() < 3 {
            return Err(String::from_str("用户名至少3个字符"));
        }
        if password.as_bytes().len() < 6 {
            return Err(String::from_str("密码至少6个字符"));
        }
        let hash = match bcrypt_hash(password, HASH_COST) {
            Ok(h) => h,
            Err(e) => {
                let mut msg = String::from_str("密码加密失败: ");
                push_str(&mut msg, e.as_str());
                assert(msg@.subrange(0, "密码加密失败: "@.len() as int) =~= "密码加密失败: "@);
                return Err(msg);
            },
        };
        let user = User {
            username: String::from_str(username),
            password_hash: hash,
            display_name: String::from_str(display_name),
            role,
            created_at: local_time_text(),
        };
        let stored = user.duplicate();
        let ghost before = users_view(self.users@);
        proof {
            assert forall|k: int| 0 <= k < before.len() implies #[trigger] before[k].username != username@ by {
                assert(before[k] == self.users@[k]@);
                if before[k].username == username@ {
                    lemma_accounts_found(before, k);
                }
            }
        }
        let mut users: Vec<User> = Vec::new();
        std::mem::swap(&mut users, &mut self.users);
        users.push(stored);
        proof {
            let after = users_view(users@);
            assert(after.drop_last() =~= before);
            assert forall|i: int, j: int|
                0 <= i < after.len() && 0 <= j < after.len() && i != j implies #[trigger] after[i].username
                != #[trigger] after[j].username by {
                if i < before.len() && j < before.len() {
                    assert(after[i] == before[i] && after[j] == before[j]);
                } else if i < before.len() {
                    assert(after[i] == before[i]);
                } else {
                    assert(after[j] == before[j]);
                }
            }
        }
        self.users = users;
        Ok(user)
    }

}

/// An account that registration added can log in with its password, and
/// registration leaves every other account as it was.
pub proof fn law_registered_user_can_log_in(
    before: UserStore,
    after: UserStore,
    username: Seq<char>,
    password: Seq<char>,
    user: UserView,
    other: Seq<char>,
)
    requires
        after.accounts() == before.accounts().insert(username, user),
        bcrypt_verify(password, user.password_hash) == Some(true),
        other != username,
    ensures
        after.accounts().dom().contains(username),
        bcrypt_verify(password, after.accounts()[username].password_hash) == Some(true),
        after.accounts().dom().contains(other) == before.accounts().dom().contains(other),
        before.accounts().dom().contains(other) ==> after.accounts()[other] == before.accounts()[other],
{
}

} // verus!
