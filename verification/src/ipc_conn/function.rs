//! The operations of the cloud service and the numbers that select them.
//!
//! The numbers are agreed with the service: a request carries the number of
//! its operation beside its payload.

use vstd::prelude::*;

verus! {

/// An operation of the cloud service itself.
#[derive(Clone, Copy, Debug, PartialEq, Eq, Structural)]
pub enum CloudServiceFunc {
    /// Hands out the handle through which assets are moved.
    ConnectAssetLoader,
    /// Fetches the brief information on every application.
    GetAppBriefInfo,
    /// Fetches the state of the cloud account.
    GetServiceInfo,
    /// Fetches the schema of one application.
    GetAppSchema,
    /// Registers for changes of databases.
    Subscribe,
    /// Cancels registrations.
    Unsubscribe,
}

/// An operation of the asset loader.
#[derive(Clone, Copy, Debug, PartialEq, Eq, Structural)]
pub enum AssetLoaderFunc {
    /// Moves assets to the cloud.
    Upload,
    /// Moves assets from the cloud.
    Download,
}

impl CloudServiceFunc {
    /// The number that selects the operation.
    pub open spec fn spec_code(self) -> u32 {
        match self {
            CloudServiceFunc::ConnectAssetLoader => 0,
            CloudServiceFunc::GetAppBriefInfo => 1,
            CloudServiceFunc::GetServiceInfo => 2,
            CloudServiceFunc::GetAppSchema => 3,
            CloudServiceFunc::Subscribe => 4,
            CloudServiceFunc::Unsubscribe => 5,
        }
    }

    /// The number that selects the operation.
    #[verifier::when_used_as_spec(spec_code)]
    pub fn code(self) -> (r: u32)
        ensures
            r == self.spec_code(),
    {
        match self {
            CloudServiceFunc::ConnectAssetLoader => 0,
            CloudServiceFunc::GetAppBriefInfo => 1,
            CloudServiceFunc::GetServiceInfo => 2,
            CloudServiceFunc::GetAppSchema => 3,
            CloudServiceFunc::Subscribe => 4,
            CloudServiceFunc::Unsubscribe => 5,
        }
    }
}

impl AssetLoaderFunc {
    /// The number that selects the operation.
    pub open spec fn spec_code(self) -> u32 {
        match self {
            AssetLoaderFunc::Upload => 0,
            AssetLoaderFunc::Download => 1,
        }
    }

    /// The number that selects the operation.
    #[verifier::when_used_as_spec(spec_code)]
    pub fn code(self) -> (r: u32)
        ensures
            r == self.spec_code(),
    {
        match self {
            AssetLoaderFunc::Upload => 0,
            AssetLoaderFunc::Download => 1,
        }
    }
}

/// A request ready to be sent: the number of the operation and its payload.
#[derive(Clone, Debug, PartialEq, Eq)]
pub struct Request {
    /// The number that selects the operation.
    pub code: u32,
    /// The payload.
    pub data: Vec<u8>,
}

} // verus!
