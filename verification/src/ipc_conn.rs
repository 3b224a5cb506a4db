//! The wire codec and the exchanges with the cloud service.
//!
//! The codec is built from the leaves up: [`scalar`] and [`utf16`] say how
//! numbers and text become bytes, [`parcel`] says what it takes for a type to
//! travel, [`primitive`], [`sequence`] and [`string_map`] make the scalars,
//! sequences, pairs and maps travel, and the other modules build the payloads
//! of the service and its exchanges on them.

pub mod asset;
pub mod connect;
pub mod error;
pub mod field;
pub mod function;
pub mod info;
pub mod parcel;
pub mod primitive;
pub mod scalar;
pub mod schema;
pub mod sequence;
pub mod string_map;
pub mod subscription;
pub mod utf16;

pub use asset::{CloudAsset, CloudAssets};
pub use connect::{AssetStatus, Connect, Infos, Response, SwitchStatus};
pub use error::{Error, Errors};
pub use field::{CloudData, FieldRaw, ValueBucket, ValueBuckets};
pub use function::{AssetLoaderFunc, CloudServiceFunc, Request};
pub use info::{AppInfo, AppInfos, ServiceInfo};
pub use parcel::{Deserialize, MsgParcel, Serialize, Wire};
pub use primitive::String16;
pub use schema::{
    Database, Databases, Field, FieldType, Fields, OrderTable, Schema, SchemaOrderTables,
};
pub use sequence::{vec_raw_read, vec_raw_write};
pub use string_map::{string_hash_map_raw_read, string_hash_map_raw_write, StringMap};
pub use subscription::{
    Subscription, SubscriptionResult, SubscriptionResultValue, UnsubscriptionInfo,
};
