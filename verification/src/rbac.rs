//! The role/permission store: identities, roles, permissions and the two
//! many-to-many edge relations, with the transitive permission query that the
//! gate runs per request.
//!
//! Records carry dense identifiers: the record at index `i` of its relation has
//! id `i + 1`, as a serial column would assign them, and nothing is ever
//! removed. Well-formedness (`wf`) captures that, the uniqueness of names, and
//! referential integrity of the edges.

use vstd::prelude::*;

use crate::text::str_eq;

verus! {

/// A registered identity: unique id, unique username, password hash.
#[derive(Clone, Debug)]
pub struct User {
    pub id: i32,
    pub username: String,
    pub password: String,
}

/// A named bundle of permissions.
#[derive(Clone, Debug)]
pub struct Role {
    pub id: i32,
    pub name: String,
    pub role_type: String,
}

/// A named capability; the name is the lookup key of authorization checks.
#[derive(Clone, Debug)]
pub struct Permission {
    pub id: i32,
    pub name: String,
    pub permission_type: String,
}

/// A role-to-permission edge; the pair is the composite key.
#[derive(Clone, Copy, Debug, PartialEq, Eq, Structural)]
pub struct RolePermission {
    pub role_id: i32,
    pub permission_id: i32,
}

/// An identity-to-role edge; the pair is the composite key.
#[derive(Clone, Copy, Debug, PartialEq, Eq, Structural)]
pub struct UserRole {
    pub user_id: i32,
    pub role_id: i32,
}

/// How a store operation can be refused.
#[derive(Clone, Copy, Debug, PartialEq, Eq, Structural)]
pub enum RbacError {
    /// A role or permission with this unique name already exists.
    DuplicateName,
    /// The edge with this composite key already exists.
    DuplicateEdge,
    /// An edge endpoint references no existing record.
    UnknownId,
}

/// The relational state: five relations, as the persisted schema has them.
pub struct RbacStore {
    pub users: Vec<User>,
    pub roles: Vec<Role>,
    pub permissions: Vec<Permission>,
    pub role_permissions: Vec<RolePermission>,
    pub users_roles: Vec<UserRole>,
}

/// One step of a filtering scan: extending the scanned prefix by one element
/// extends the filtered result exactly when the element satisfies the
/// predicate.
proof fn lemma_filter_step<A>(s: Seq<A>, pred: spec_fn(A) -> bool, i: int)
    requires
        0 <= i < s.len(),
    ensures
        pred(s[i]) ==> s.take(i + 1).filter(pred) == s.take(i).filter(pred).push(s[i]),
        !pred(s[i]) ==> s.take(i + 1).filter(pred) == s.take(i).filter(pred),
{
    reveal(Seq::filter);
    assert(s.take(i + 1).drop_last() =~= s.take(i));
    assert(s.take(i + 1).last() == s[i]);
    assert(s.take(i + 1).len() == i + 1);
}

impl RbacStore {
    /// Ids are dense: the record at index `i` has id `i + 1`.
    pub open spec fn users_ok(self) -> bool {
        &&& self.users@.len() <= i32::MAX as int
        &&& forall|i: int|
            0 <= i < self.users@.len() ==> (#[trigger] self.users@[i]).id == i + 1
        &&& forall|i: int, j: int|
            0 <= i < j < self.users@.len() ==> self.users@[i].username@ != self.users@[j].username@
    }

    pub open spec fn roles_ok(self) -> bool {
        &&& self.roles@.len() <= i32::MAX as int
        &&& forall|i: int|
            0 <= i < self.roles@.len() ==> (#[trigger] self.roles@[i]).id == i + 1
        &&& forall|i: int, j: int|
            0 <= i < j < self.roles@.len() ==> self.roles@[i].name@ != self.roles@[j].name@
    }

    pub open spec fn permissions_ok(self) -> bool {
        &&& self.permissions@.len() <= i32::MAX as int
        &&& forall|i: int|
            0 <= i < self.permissions@.len() ==> (#[trigger] self.permissions@[i]).id == i + 1
        &&& forall|i: int, j: int|
            0 <= i < j < self.permissions@.len() ==> self.permissions@[i].name@
                != self.permissions@[j].name@
    }

    /// Edges are unique and reference existing records.
    pub open spec fn role_permissions_ok(self) -> bool {
        &&& forall|i: int|
            0 <= i < self.role_permissions@.len() ==> {
                &&& 1 <= (#[trigger] self.role_permissions@[i]).role_id <= self.roles@.len()
                &&& 1 <= self.role_permissions@[i].permission_id <= self.permissions@.len()
            }
        &&& forall|i: int, j: int|
            0 <= i < j < self.role_permissions@.len() ==> self.role_permissions@[i]
                != self.role_permissions@[j]
    }

    pub open spec fn users_roles_ok(self) -> bool {
        &&& forall|i: int|
            0 <= i < self.users_roles@.len() ==> {
                &&& 1 <= (#[trigger] self.users_roles@[i]).user_id <= self.users@.len()
                &&& 1 <= self.users_roles@[i].role_id <= self.roles@.len()
            }
        &&& forall|i: int, j: int|
            0 <= i < j < self.users_roles@.len() ==> self.users_roles@[i] != self.users_roles@[j]
    }

    /// Well-formedness: what `new` establishes and every operation preserves.
    pub open spec fn wf(self) -> bool {
        &&& self.users_ok()
        &&& self.roles_ok()
        &&& self.permissions_ok()
        &&& self.role_permissions_ok()
        &&& self.users_roles_ok()
    }

    /// An empty store.
    pub fn new() -> (s: RbacStore)
        ensures
            s.wf(),
            s.users@ =~= Seq::<User>::empty(),
            s.roles@ =~= Seq::<Role>::empty(),
            s.permissions@ =~= Seq::<Permission>::empty(),
            s.role_permissions@ =~= Seq::<RolePermission>::empty(),
            s.users_roles@ =~= Seq::<UserRole>::empty(),
    {
        RbacStore {
            users: Vec::new(),
            roles: Vec::new(),
            permissions: Vec::new(),
            role_permissions: Vec::new(),
            users_roles: Vec::new(),
        }
    }

    /// A role with this name exists.
    pub open spec fn role_name_taken(self, name: Seq<char>) -> bool {
        exists|i: int| 0 <= i < self.roles@.len() && (#[trigger] self.roles@[i]).name@ == name
    }

    /// Whether some role already carries this name.
    fn role_name_exists(&self, name: &str) -> (r: bool)
        ensures
            r == self.role_name_taken(name@),
    {
        let n = self.roles.len();
        let mut i: usize = 0;
        while i < n
            invariant
                n == self.roles@.len(),
                i <= n,
                forall|j: int| 0 <= j < i ==> (#[trigger] self.roles@[j]).name@ != name@,
            decreases n - i,
        {
            if str_eq(self.roles[i].name.as_str(), name) {
                return true;
            }
            i += 1;
        }
        false
    }

    /// Create a role with a fresh id; refused when the unique name is taken.
    pub fn create_role(&mut self, name: &str, role_type: &str) -> (r: Result<i32, RbacError>)
        requires
            old(self).wf(),
            old(self).roles@.len() < i32::MAX as int,
        ensures
            final(self).wf(),
            old(self).role_name_taken(name@) ==> r == Err::<i32, RbacError>(
                RbacError::DuplicateName,
            ) && *final(self) == *old(self),
            !old(self).role_name_taken(name@) ==> {
                &&& r == Ok::<i32, RbacError>((old(self).roles@.len() + 1) as i32)
                &&& final(self).roles@.len() == old(self).roles@.len() + 1
                &&& final(self).roles@.drop_last() == old(self).roles@
                &&& final(self).roles@.last().id == old(self).roles@.len() + 1
                &&& final(self).roles@.last().name@ == name@
                &&& final(self).roles@.last().role_type@ == role_type@
                &&& final(self).users@ == old(self).users@
                &&& final(self).permissions@ == old(self).permissions@
                &&& final(self).role_permissions@ == old(self).role_permissions@
                &&& final(self).users_roles@ == old(self).users_roles@
            },
    {
        if self.role_name_exists(name) {
            return Err(RbacError::DuplicateName);
        }
        let n = self.roles.len();
        let id = (n + 1) as i32;
        self.roles.push(
            Role { id, name: name.to_owned(), role_type: role_type.to_owned() },
        );
        proof {
            assert(self.roles@.drop_last() =~= old(self).roles@);
        }
        Ok(id)
    }

    /// A permission with this name exists.
    pub open spec fn permission_name_taken(self, name: Seq<char>) -> bool {
        exists|i: int|
            0 <= i < self.permissions@.len() && (#[trigger] self.permissions@[i]).name@ == name
    }

    /// Whether some permission already carries this name.
    fn permission_name_exists(&self, name: &str) -> (r: bool)
        ensures
            r == self.permission_name_taken(name@),
    {
        let n = self.permissions.len();
        let mut i: usize = 0;
        while i < n
            invariant
                n == self.permissions@.len(),
                i <= n,
                forall|j: int| 0 <= j < i ==> (#[trigger] self.permissions@[j]).name@ != name@,
            decreases n - i,
        {
            if str_eq(self.permissions[i].name.as_str(), name) {
                return true;
            }
            i += 1;
        }
        false
    }

    /// Create a permission with a fresh id; refused when the unique name is
    /// taken.
    pub fn create_permission(&mut self, name: &str, permission_type: &str) -> (r: Result<
        i32,
        RbacError,
    >)
        requires
            old(self).wf(),
            old(self).permissions@.len() < i32::MAX as int,
        ensures
            final(self).wf(),
            old(self).permission_name_taken(name@) ==> r == Err::<i32, RbacError>(
                RbacError::DuplicateName,
            ) && *final(self) == *old(self),
            !old(self).permission_name_taken(name@) ==> {
                &&& r == Ok::<i32, RbacError>((old(self).permissions@.len() + 1) as i32)
                &&& final(self).permissions@.len() == old(self).permissions@.len() + 1
                &&& final(self).permissions@.drop_last() == old(self).permissions@
                &&& final(self).permissions@.last().id == old(self).permissions@.len() + 1
                &&& final(self).permissions@.last().name@ == name@
                &&& final(self).permissions@.last().permission_type@ == permission_type@
                &&& final(self).users@ == old(self).users@
                &&& final(self).roles@ == old(self).roles@
                &&& final(self).role_permissions@ == old(self).role_permissions@
                &&& final(self).users_roles@ == old(self).users_roles@
            },
    {
        if self.permission_name_exists(name) {
            return Err(RbacError::DuplicateName);
        }
        let n = self.permissions.len();
        let id = (n + 1) as i32;
        self.permissions.push(
            Permission { id, name: name.to_owned(), permission_type: permission_type.to_owned() },
        );
        proof {
            assert(self.permissions@.drop_last() =~= old(self).permissions@);
        }
        Ok(id)
    }

    /// An identity with this username exists.
    pub open spec fn username_taken(self, username: Seq<char>) -> bool {
        exists|i: int|
            0 <= i < self.users@.len() && (#[trigger] self.users@[i]).username@ == username
    }

    /// Whether some identity already carries this username.
    fn username_exists(&self, username: &str) -> (r: bool)
        ensures
            r == self.username_taken(username@),
    {
        let n = self.users.len();
        let mut i: usize = 0;
        while i < n
            invariant
                n == self.users@.len(),
                i <= n,
                forall|j: int| 0 <= j < i ==> (#[trigger] self.users@[j]).username@ != username@,
            decreases n - i,
        {
            if str_eq(self.users[i].username.as_str(), username) {
                return true;
            }
            i += 1;
        }
        false
    }

    /// Register an identity with a fresh id and the given password hash;
    /// refused when the unique username is taken.
    pub fn create_user(&mut self, username: &str, password: &str) -> (r: Result<i32, RbacError>)
        requires
            old(self).wf(),
            old(self).users@.len() < i32::MAX as int,
        ensures
            final(self).wf(),
            old(self).username_taken(username@) ==> r == Err::<i32, RbacError>(
                RbacError::DuplicateName,
            ) && *final(self) == *old(self),
            !old(self).username_taken(username@) ==> {
                &&& r == Ok::<i32, RbacError>((old(self).users@.len() + 1) as i32)
                &&& final(self).users@.len() == old(self).users@.len() + 1
                &&& final(self).users@.drop_last() == old(self).users@
                &&& final(self).users@.last().id == old(self).users@.len() + 1
                &&& final(self).users@.last().username@ == username@
                &&& final(self).users@.last().password@ == password@
                &&& final(self).roles@ == old(self).roles@
                &&& final(self).permissions@ == old(self).permissions@
                &&& final(self).role_permissions@ == old(self).role_permissions@
                &&& final(self).users_roles@ == old(self).users_roles@
            },
    {
        if self.username_exists(username) {
            return Err(RbacError::DuplicateName);
        }
        let n = self.users.len();
        let id = (n + 1) as i32;
        self.users.push(
            User { id, username: username.to_owned(), password: password.to_owned() },
        );
        proof {
            assert(self.users@.drop_last() =~= old(self).users@);
        }
        Ok(id)
    }

    /// The role-to-permission edge is present.
    pub open spec fn has_role_permission(self, role_id: i32, permission_id: i32) -> bool {
        self.role_permissions@.contains(RolePermission { role_id, permission_id })
    }

    /// The identity-to-role edge is present.
    pub open spec fn has_user_role(self, user_id: i32, role_id: i32) -> bool {
        self.users_roles@.contains(UserRole { user_id, role_id })
    }

    fn rp_edge_exists(&self, role_id: i32, permission_id: i32) -> (r: bool)
        ensures
            r == self.has_role_permission(role_id, permission_id),
    {
        let n = self.role_permissions.len();
        let mut i: usize = 0;
        while i < n
            invariant
                n == self.role_permissions@.len(),
                i <= n,
                forall|j: int|
                    0 <= j < i ==> self.role_permissions@[j] != (RolePermission {
                        role_id,
                        permission_id,
                    }),
            decreases n - i,
        {
            let e = self.role_permissions[i];
            if e.role_id == role_id && e.permission_id == permission_id {
                return true;
            }
            i += 1;
        }
        false
    }

    fn ur_edge_exists(&self, user_id: i32, role_id: i32) -> (r: bool)
        ensures
            r == self.has_user_role(user_id, role_id),
    {
        let n = self.users_roles.len();
        let mut i: usize = 0;
        while i < n
            invariant
                n == self.users_roles@.len(),
                i <= n,
                forall|j: int|
                    0 <= j < i ==> self.users_roles@[j] != (UserRole { user_id, role_id }),
            decreases n - i,
        {
            let e = self.users_roles[i];
            if e.user_id == user_id && e.role_id == role_id {
                return true;
            }
            i += 1;
        }
        false
    }

    /// What granting this pair answers: referential integrity first, then the
    /// composite-key uniqueness.
    pub open spec fn spec_grant_result(self, role_id: i32, permission_id: i32) -> Result<
        (),
        RbacError,
    > {
        if !(1 <= role_id <= self.roles@.len() && 1 <= permission_id <= self.permissions@.len()) {
            Err(RbacError::UnknownId)
        } else if self.has_role_permission(role_id, permission_id) {
            Err(RbacError::DuplicateEdge)
        } else {
            Ok(())
        }
    }

    /// Insert a role-to-permission edge. A duplicate insert surfaces as
    /// `DuplicateEdge` and leaves the store — and so every identity's
    /// effective permission set — unchanged.
    pub fn grant_permission(&mut self, role_id: i32, permission_id: i32) -> (r: Result<
        (),
        RbacError,
    >)
        requires
            old(self).wf(),
        ensures
            final(self).wf(),
            r == old(self).spec_grant_result(role_id, permission_id),
            r is Err ==> *final(self) == *old(self),
            r == Err::<(), RbacError>(RbacError::DuplicateEdge) ==> forall|u: i32, n: Seq<char>|
                final(self).spec_has_permission(u, n) == old(self).spec_has_permission(u, n),
            r is Ok ==> {
                &&& final(self).role_permissions@ == old(self).role_permissions@.push(
                    RolePermission { role_id, permission_id },
                )
                &&& final(self).users@ == old(self).users@
                &&& final(self).roles@ == old(self).roles@
                &&& final(self).permissions@ == old(self).permissions@
                &&& final(self).users_roles@ == old(self).users_roles@
            },
    {
        if !(role_id >= 1 && role_id as usize <= self.roles.len() && permission_id >= 1
            && permission_id as usize <= self.permissions.len()) {
            return Err(RbacError::UnknownId);
        }
        if self.rp_edge_exists(role_id, permission_id) {
            return Err(RbacError::DuplicateEdge);
        }
        self.role_permissions.push(RolePermission { role_id, permission_id });
        Ok(())
    }

    /// What assigning this pair answers.
    pub open spec fn spec_assign_result(self, user_id: i32, role_id: i32) -> Result<
        (),
        RbacError,
    > {
        if !(1 <= user_id <= self.users@.len() && 1 <= role_id <= self.roles@.len()) {
            Err(RbacError::UnknownId)
        } else if self.has_user_role(user_id, role_id) {
            Err(RbacError::DuplicateEdge)
        } else {
            Ok(())
        }
    }

    /// Insert an identity-to-role edge; duplicates surface as `DuplicateEdge`.
    pub fn assign_role(&mut self, user_id: i32, role_id: i32) -> (r: Result<(), RbacError>)
        requires
            old(self).wf(),
        ensures
            final(self).wf(),
            r == old(self).spec_assign_result(user_id, role_id),
            r is Err ==> *final(self) == *old(self),
            r is Ok ==> {
                &&& final(self).users_roles@ == old(self).users_roles@.push(
                    UserRole { user_id, role_id },
                )
                &&& final(self).users@ == old(self).users@
                &&& final(self).roles@ == old(self).roles@
                &&& final(self).permissions@ == old(self).permissions@
                &&& final(self).role_permissions@ == old(self).role_permissions@
            },
    {
        if !(user_id >= 1 && user_id as usize <= self.users.len() && role_id >= 1
            && role_id as usize <= self.roles.len()) {
            return Err(RbacError::UnknownId);
        }
        if self.ur_edge_exists(user_id, role_id) {
            return Err(RbacError::DuplicateEdge);
        }
        self.users_roles.push(UserRole { user_id, role_id });
        Ok(())
    }

    /// The permission with this id carries this name.
    pub open spec fn permission_named(self, permission_id: i32, name: Seq<char>) -> bool {
        &&& 1 <= permission_id <= self.permissions@.len()
        &&& self.permissions@[permission_id - 1].name@ == name
    }

    /// The transitive query run per protected request: some role is assigned to the
    /// identity and granted a permission carrying this name.
    pub open spec fn spec_has_permission(self, user_id: i32, name: Seq<char>) -> bool {
        exists|role_id: i32, permission_id: i32|
            #![trigger self.has_role_permission(role_id, permission_id)]
            self.has_user_role(user_id, role_id) && self.has_role_permission(
                role_id,
                permission_id,
            ) && self.permission_named(permission_id, name)
    }

    fn permission_id_by_name(&self, name: &str) -> (r: Option<i32>)
        requires
            self.wf(),
        ensures
            match r {
                Some(pid) => self.permission_named(pid, name@),
                None => !self.permission_name_taken(name@),
            },
    {
        let n = self.permissions.len();
        let mut i: usize = 0;
        while i < n
            invariant
                n == self.permissions@.len(),
                i <= n,
                self.wf(),
                forall|j: int| 0 <= j < i ==> (#[trigger] self.permissions@[j]).name@ != name@,
            decreases n - i,
        {
            if str_eq(self.permissions[i].name.as_str(), name) {
                return Some(self.permissions[i].id);
            }
            i += 1;
        }
        None
    }

    /// Does the identity hold a permission with this exact name? One
    /// existence query over the two edge relations and the permission table.
    pub fn has_permission(&self, user_id: i32, permission_name: &str) -> (r: bool)
        requires
            self.wf(),
        ensures
            r == self.spec_has_permission(user_id, permission_name@),
    {
        let ghost name = permission_name@;
        let pid = match self.permission_id_by_name(permission_name) {
            None => {
                proof {
                    assert forall|role_id: i32, permission_id: i32|
                        !(self.has_user_role(user_id, role_id) && #[trigger] self
                            .has_role_permission(role_id, permission_id) && self.permission_named(
                            permission_id,
                            name,
                        )) by {
                        if self.permission_named(permission_id, name) {
                            assert(self.permissions@[permission_id - 1].name@ == name);
                            assert(self.permission_name_taken(name));
                        }
                    }
                }
                return false;
            },
            Some(p) => p,
        };
        let n = self.users_roles.len();
        let mut i: usize = 0;
        while i < n
            invariant
                self.wf(),
                n == self.users_roles@.len(),
                i <= n,
                self.permission_named(pid, name),
                name == permission_name@,
                forall|j: int|
                    0 <= j < i ==> !((#[trigger] self.users_roles@[j]).user_id == user_id
                        && self.has_role_permission(self.users_roles@[j].role_id, pid)),
            decreases n - i,
        {
            let e = self.users_roles[i];
            if e.user_id == user_id {
                if self.rp_edge_exists(e.role_id, pid) {
                    proof {
                        assert(self.users_roles@[i as int] == (UserRole {
                            user_id,
                            role_id: e.role_id,
                        }));
                        assert(self.users_roles@.contains(
                            UserRole { user_id, role_id: e.role_id },
                        ));
                    }
                    return true;
                }
            }
            i += 1;
        }
        proof {
            assert forall|role_id: i32, permission_id: i32|
                !(self.has_user_role(user_id, role_id) && #[trigger] self.has_role_permission(
                    role_id,
                    permission_id,
                ) && self.permission_named(permission_id, name)) by {
                if self.has_user_role(user_id, role_id) && self.has_role_permission(
                    role_id,
                    permission_id,
                ) && self.permission_named(permission_id, name) {
                    // unique permission names force the ids to agree
                    assert(self.permissions@[permission_id - 1].name@ == name);
                    assert(self.permissions@[pid - 1].name@ == name);
                    assert(permission_id == pid);
                    // the edge witness contradicts the completed scan
                    let j = choose|j: int|
                        0 <= j < self.users_roles@.len() && self.users_roles@[j] == (UserRole {
                            user_id,
                            role_id,
                        });
                    assert(!(self.users_roles@[j].user_id == user_id && self.has_role_permission(
                        self.users_roles@[j].role_id,
                        pid,
                    )));
                    assert(false);
                }
            }
        }
        false
    }

    /// The identity carrying this username, if any; usernames are unique.
    pub fn find_user_by_name(&self, username: &str) -> (r: Option<User>)
        requires
            self.wf(),
        ensures
            match r {
                Some(u) => {
                    &&& u.username@ == username@
                    &&& exists|i: int|
                        0 <= i < self.users@.len() && {
                            let w = #[trigger] self.users@[i];
                            w.id == u.id && w.username@ == u.username@ && w.password@
                                == u.password@
                        }
                },
                None => !self.username_taken(username@),
            },
    {
        let n = self.users.len();
        let mut i: usize = 0;
        while i < n
            invariant
                n == self.users@.len(),
                i <= n,
                forall|j: int| 0 <= j < i ==> (#[trigger] self.users@[j]).username@ != username@,
            decreases n - i,
        {
            if str_eq(self.users[i].username.as_str(), username) {
                let u = User {
                    id: self.users[i].id,
                    username: self.users[i].username.clone(),
                    password: self.users[i].password.clone(),
                };
                return Some(u);
            }
            i += 1;
        }
        None
    }

    /// All role-to-permission edges of this role, in insertion order; empty
    /// when the role has none.
    #[verifier::loop_isolation(false)]
    pub fn list_permissions_for_role(&self, role_id: i32) -> (r: Vec<RolePermission>)
        ensures
            r@ == self.role_permissions@.filter(|e: RolePermission| e.role_id == role_id),
    {
        let ghost pred = (|e: RolePermission| e.role_id == role_id);
        let n = self.role_permissions.len();
        let mut out: Vec<RolePermission> = Vec::new();
        let mut i: usize = 0;
        while i < n
            invariant
                n == self.role_permissions@.len(),
                i <= n,
                out@ == self.role_permissions@.take(i as int).filter(pred),
            decreases n - i,
        {
            let e = self.role_permissions[i];
            proof {
                lemma_filter_step(self.role_permissions@, pred, i as int);
            }
            if e.role_id == role_id {
                out.push(e);
            }
            i += 1;
        }
        proof {
            assert(self.role_permissions@.take(n as int) =~= self.role_permissions@);
        }
        out
    }

    /// All identity-to-role edges of this identity, in insertion order; empty
    /// when the identity has none.
    #[verifier::loop_isolation(false)]
    pub fn list_roles_for_user(&self, user_id: i32) -> (r: Vec<UserRole>)
        ensures
            r@ == self.users_roles@.filter(|e: UserRole| e.user_id == user_id),
    {
        let ghost pred = (|e: UserRole| e.user_id == user_id);
        let n = self.users_roles.len();
        let mut out: Vec<UserRole> = Vec::new();
        let mut i: usize = 0;
        while i < n
            invariant
                n == self.users_roles@.len(),
                i <= n,
                out@ == self.users_roles@.take(i as int).filter(pred),
            decreases n - i,
        {
            let e = self.users_roles[i];
            if e.user_id == user_id {
                out.push(e);
            }
            proof {
                lemma_filter_step(self.users_roles@, pred, i as int);
            }
            i += 1;
        }
        proof {
            assert(self.users_roles@.take(n as int) =~= self.users_roles@);
        }
        out
    }

    /// The roles assigned to an identity.
    pub open spec fn roles_of(self, user_id: i32) -> Set<i32> {
        Set::new(|role_id: i32| self.has_user_role(user_id, role_id))
    }

    /// The permission names granted to a role.
    pub open spec fn grants_of(self, role_id: i32) -> Set<Seq<char>> {
        Set::new(
            |name: Seq<char>|
                exists|permission_id: i32|
                    #![trigger self.has_role_permission(role_id, permission_id)]
                    self.has_role_permission(role_id, permission_id) && self.permission_named(
                        permission_id,
                        name,
                    ),
        )
    }

    /// The identity's effective permission set: the union over its roles of
    /// each role's grants. Never materialized by the executable code; it only
    /// serves to state what `has_permission` answers.
    pub open spec fn effective_permissions(self, user_id: i32) -> Set<Seq<char>> {
        Set::new(
            |name: Seq<char>|
                exists|role_id: i32|
                    #![trigger self.grants_of(role_id)]
                    self.roles_of(user_id).contains(role_id) && self.grants_of(role_id).contains(
                        name,
                    ),
        )
    }
}

/// Law: an identity holds a permission name exactly when the name lies in the
/// union, over the roles assigned to the identity, of the permissions granted
/// to each role.
pub proof fn lemma_has_permission_is_union(s: RbacStore, user_id: i32, name: Seq<char>)
    ensures
        s.spec_has_permission(user_id, name) == s.effective_permissions(user_id).contains(name),
{
    if s.spec_has_permission(user_id, name) {
        let (role_id, permission_id) = choose|role_id: i32, permission_id: i32|
            #![trigger s.has_role_permission(role_id, permission_id)]
            s.has_user_role(user_id, role_id) && s.has_role_permission(role_id, permission_id)
                && s.permission_named(permission_id, name);
        assert(s.roles_of(user_id).contains(role_id));
        assert(s.grants_of(role_id).contains(name));
        assert(s.effective_permissions(user_id).contains(name));
    }
    if s.effective_permissions(user_id).contains(name) {
        let role_id = choose|role_id: i32|
            #![trigger s.grants_of(role_id)]
            s.roles_of(user_id).contains(role_id) && s.grants_of(role_id).contains(name);
        let permission_id = choose|permission_id: i32|
            #![trigger s.has_role_permission(role_id, permission_id)]
            s.has_role_permission(role_id, permission_id) && s.permission_named(
                permission_id,
                name,
            );
        assert(s.spec_has_permission(user_id, name));
    }
}

/// Law: an identity with no roles holds no permission at all.
pub proof fn lemma_no_roles_no_permission(s: RbacStore, user_id: i32, name: Seq<char>)
    requires
        forall|role_id: i32| !s.has_user_role(user_id, role_id),
    ensures
        !s.spec_has_permission(user_id, name),
{
    if s.spec_has_permission(user_id, name) {
        let (role_id, permission_id) = choose|role_id: i32, permission_id: i32|
            #![trigger s.has_role_permission(role_id, permission_id)]
            s.has_user_role(user_id, role_id) && s.has_role_permission(role_id, permission_id)
                && s.permission_named(permission_id, name);
        assert(!s.has_user_role(user_id, role_id));
        assert(false);
    }
}

/// Law: a grant is not idempotent silently. After a successful grant of a
/// pair, granting the same pair again is answered with `DuplicateEdge` — and,
/// by `grant_permission`'s contract, the repeated attempt leaves the store and
/// so every identity's effective permission set unchanged.
pub proof fn lemma_duplicate_grant_detected(
    s0: RbacStore,
    s1: RbacStore,
    role_id: i32,
    permission_id: i32,
)
    requires
        s0.spec_grant_result(role_id, permission_id) == Ok::<(), RbacError>(()),
        s1.role_permissions@ == s0.role_permissions@.push(
            RolePermission { role_id, permission_id },
        ),
        s1.roles@ == s0.roles@,
        s1.permissions@ == s0.permissions@,
    ensures
        s1.spec_grant_result(role_id, permission_id) == Err::<(), RbacError>(
            RbacError::DuplicateEdge,
        ),
{
    let e = RolePermission { role_id, permission_id };
    assert(s1.role_permissions@[s0.role_permissions@.len() as int] == e);
    assert(s1.role_permissions@.contains(e));
}

} // verus!
