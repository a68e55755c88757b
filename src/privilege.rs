use vstd::prelude::*;
use crate::catalog::{ColumnPrivilege, Privilege as Grant, RoutinePrivilege, TablePrivilege};

verus! {

/// A grant of a privilege by a grantor to a grantee.
pub trait Privilege {
    spec fn grantor_view(&self) -> Seq<char>;

    spec fn grantee_view(&self) -> Seq<char>;

    spec fn privilege_type_view(&self) -> Seq<char>;

    fn grantor(&self) -> (r: &str)
        ensures
            r@ == self.grantor_view(),
    ;

    fn grantee(&self) -> (r: &str)
        ensures
            r@ == self.grantee_view(),
    ;

    fn privilege_type(&self) -> (r: &str)
        ensures
            r@ == self.privilege_type_view(),
    ;
}

impl Privilege for ColumnPrivilege {
    open spec fn grantor_view(&self) -> Seq<char> {
        self.grantor@
    }

    open spec fn grantee_view(&self) -> Seq<char> {
        self.grantee@
    }

    open spec fn privilege_type_view(&self) -> Seq<char> {
        self.privilege_type@
    }

    fn grantor(&self) -> (r: &str) {
        self.grantor.as_str()
    }

    fn grantee(&self) -> (r: &str) {
        self.grantee.as_str()
    }

    fn privilege_type(&self) -> (r: &str) {
        self.privilege_type.as_str()
    }
}

impl Privilege for TablePrivilege {
    open spec fn grantor_view(&self) -> Seq<char> {
        self.grantor@
    }

    open spec fn grantee_view(&self) -> Seq<char> {
        self.grantee@
    }

    open spec fn privilege_type_view(&self) -> Seq<char> {
        self.privilege_type@
    }

    fn grantor(&self) -> (r: &str) {
        self.grantor.as_str()
    }

    fn grantee(&self) -> (r: &str) {
        self.grantee.as_str()
    }

    fn privilege_type(&self) -> (r: &str) {
        self.privilege_type.as_str()
    }
}

impl Privilege for RoutinePrivilege {
    open spec fn grantor_view(&self) -> Seq<char> {
        self.grantor@
    }

    open spec fn grantee_view(&self) -> Seq<char> {
        self.grantee@
    }

    open spec fn privilege_type_view(&self) -> Seq<char> {
        self.privilege_type@
    }

    fn grantor(&self) -> (r: &str) {
        self.grantor.as_str()
    }

    fn grantee(&self) -> (r: &str) {
        self.grantee.as_str()
    }

    fn privilege_type(&self) -> (r: &str) {
        self.privilege_type.as_str()
    }
}

impl Privilege for Grant {
    open spec fn grantor_view(&self) -> Seq<char> {
        self.grantor@
    }

    open spec fn grantee_view(&self) -> Seq<char> {
        self.grantee@
    }

    open spec fn privilege_type_view(&self) -> Seq<char> {
        self.privilege_type@
    }

    fn grantor(&self) -> (r: &str) {
        self.grantor.as_str()
    }

    fn grantee(&self) -> (r: &str) {
        self.grantee.as_str()
    }

    fn privilege_type(&self) -> (r: &str) {
        self.privilege_type.as_str()
    }
}

} // verus!
