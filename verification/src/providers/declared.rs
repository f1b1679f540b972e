//! A connector the contract declares but the platform has not implemented:
//! it is named honestly everywhere and refuses every attempt.
use vstd::prelude::*;
use crate::dsl::model::PasswordPolicy;
use super::catalog::{describe, described};
use super::connector::{
    AuthChallenge, AuthConnector, AuthRequest, AuthResponse, ConnectorError, ConnectorErrorView,
    ConnectorMetadata, ExternalIdentity, MetadataView, copy_metadata,
};

verus! {

pub struct DeclaredConnector {
    metadata: ConnectorMetadata,
}

impl View for DeclaredConnector {
    type V = MetadataView;

    closed spec fn view(&self) -> MetadataView {
        self.metadata@
    }
}

impl DeclaredConnector {
    pub fn new(id: &str) -> (r: Self)
        ensures
            r@ == described(id@),
    {
        DeclaredConnector { metadata: describe(id) }
    }

    fn unsupported(&self) -> (e: ConnectorError)
        ensures
            e@ == ConnectorErrorView::Unsupported(self@.id),
    {
        ConnectorError::Unsupported { connector: self.metadata.id.clone() }
    }
}

impl AuthConnector for DeclaredConnector {
    fn id(&self) -> (r: &str)
        ensures
            r@ == self@.id,
    {
        self.metadata.id.as_str()
    }

    fn metadata(&self) -> (r: ConnectorMetadata)
        ensures
            r@ == self@,
    {
        copy_metadata(&self.metadata)
    }

    fn begin(&self, request: &AuthRequest) -> (r: Result<AuthChallenge, ConnectorError>)
        ensures
            r matches Err(e) && e@ == ConnectorErrorView::Unsupported(self@.id),
    {
        Err(self.unsupported())
    }

    fn authenticate(&self, response: &AuthResponse) -> (r: Result<ExternalIdentity, ConnectorError>)
        ensures
            r matches Err(e) && e@ == ConnectorErrorView::Unsupported(self@.id),
    {
        Err(self.unsupported())
    }

    fn supports_password_management(&self) -> (r: bool)
        ensures
            !r,
    {
        false
    }

    fn change_password(
        &mut self,
        tenant_id: &str,
        username: &str,
        current_password: &str,
        new_password: &str,
        policy: &PasswordPolicy,
        now: i64,
    ) -> (r: Result<(), ConnectorError>)
        ensures
            r matches Err(e) && e@ == ConnectorErrorView::Unsupported(old(self)@.id),
            final(self)@ == old(self)@,
    {
        Err(self.unsupported())
    }

    fn reset_password(
        &mut self,
        tenant_id: &str,
        username: &str,
        new_password: &str,
        policy: &PasswordPolicy,
        now: i64,
    ) -> (r: Result<(), ConnectorError>)
        ensures
            r matches Err(e) && e@ == ConnectorErrorView::Unsupported(old(self)@.id),
            final(self)@ == old(self)@,
    {
        Err(self.unsupported())
    }
}

} // verus!
