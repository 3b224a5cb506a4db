//! What the service tells about the applications and about the cloud account.

use vstd::prelude::*;
use crate::ipc_conn::error::Error;
use crate::ipc_conn::parcel::{Deserialize, Parsed};
use crate::ipc_conn::string_map::StringMap;

verus! {

/// The brief information on one application.
#[derive(Clone, Debug, PartialEq)]
pub struct AppInfo {
    /// The identity of the application.
    pub app_id: String,
    /// The bundle of the application.
    pub bundle_name: String,
    /// Whether the application takes part in the cloud.
    pub cloud_switch: bool,
    /// The instance of the application.
    pub instance_id: i32,
}

/// The mathematical model of an [`AppInfo`].
pub struct AppInfoView {
    pub app_id: Seq<char>,
    pub bundle_name: Seq<char>,
    pub cloud_switch: bool,
    pub instance_id: i32,
}

impl View for AppInfo {
    type V = AppInfoView;

    open spec fn view(&self) -> AppInfoView {
        AppInfoView {
            app_id: self.app_id@,
            bundle_name: self.bundle_name@,
            cloud_switch: self.cloud_switch,
            instance_id: self.instance_id,
        }
    }
}

impl DeepView for AppInfo {
    type V = AppInfoView;

    open spec fn deep_view(&self) -> AppInfoView {
        self@
    }
}

impl Default for AppInfo {
    fn default() -> (r: AppInfo)
        ensures
            r@ == (AppInfoView {
                app_id: Seq::empty(),
                bundle_name: Seq::empty(),
                cloud_switch: false,
                instance_id: 0,
            }),
    {
        AppInfo {
            app_id: String::new(),
            bundle_name: String::new(),
            cloud_switch: false,
            instance_id: 0,
        }
    }
}

/// The parts of the information on an application in the order in which they travel.
pub type AppInfoParts = (String, (String, (i32, i32)));

/// The information at `pos`: id, bundle, the switch as a number that is
/// zero for "off", and the instance.
#[verifier::opaque]
pub open spec fn app_info_parse(data: Seq<u8>, pos: int) -> Parsed<AppInfoView> {
    match AppInfoParts::parse(data, pos) {
        Err(e) => Err(e),
        Ok((f, end)) => Ok(
            (
                AppInfoView {
                    app_id: f.0,
                    bundle_name: f.1.0,
                    cloud_switch: f.1.1.0 != 0,
                    instance_id: f.1.1.1,
                },
                end,
            ),
        ),
    }
}

impl Deserialize for AppInfo {
    open spec fn parse(data: Seq<u8>, pos: int) -> Parsed<AppInfoView> {
        app_info_parse(data, pos)
    }

    proof fn lemma_parse_bounds(data: Seq<u8>, pos: int) {
        reveal(app_info_parse);
        AppInfoParts::lemma_parse_bounds(data, pos);
    }

    fn deserialize(data: &[u8], pos: usize) -> (r: Result<(AppInfo, usize), Error>) {
        proof {
            reveal(app_info_parse);
        }
        match AppInfoParts::deserialize(data, pos) {
            Ok(((app_id, (bundle_name, (switch, instance_id))), end)) => Ok(
                (AppInfo { app_id, bundle_name, cloud_switch: switch != 0, instance_id }, end),
            ),
            Err(e) => Err(e),
        }
    }
}

/// The brief information on the applications, each under the name of its bundle.
#[derive(Clone, Debug)]
pub struct AppInfos(pub StringMap<AppInfo>);

impl View for AppInfos {
    type V = Seq<(Seq<char>, AppInfoView)>;

    open spec fn view(&self) -> Seq<(Seq<char>, AppInfoView)> {
        self.0@
    }
}

impl DeepView for AppInfos {
    type V = Seq<(Seq<char>, AppInfoView)>;

    open spec fn deep_view(&self) -> Seq<(Seq<char>, AppInfoView)> {
        self@
    }
}

impl Default for AppInfos {
    fn default() -> (r: AppInfos)
        ensures
            r@ == Seq::<(Seq<char>, AppInfoView)>::empty(),
    {
        AppInfos(StringMap::new())
    }
}

impl Deserialize for AppInfos {
    open spec fn parse(data: Seq<u8>, pos: int) -> Parsed<Seq<(Seq<char>, AppInfoView)>> {
        StringMap::<AppInfo>::parse(data, pos)
    }

    proof fn lemma_parse_bounds(data: Seq<u8>, pos: int) {
        StringMap::<AppInfo>::lemma_parse_bounds(data, pos);
    }

    fn deserialize(data: &[u8], pos: usize) -> (r: Result<(AppInfos, usize), Error>) {
        match StringMap::<AppInfo>::deserialize(data, pos) {
            Ok((map, end)) => Ok((AppInfos(map), end)),
            Err(e) => Err(e),
        }
    }
}

/// What a reply to the request for the brief information holds: the map of
/// the applications, from the first byte on.
pub open spec fn app_infos_reply_parse(data: Seq<u8>) -> Result<
    Seq<(Seq<char>, AppInfoView)>,
    Error,
> {
    match AppInfos::parse(data, 0) {
        Err(e) => Err(e),
        Ok((infos, _)) => Ok(infos),
    }
}

impl AppInfos {
    /// Takes over the information that `reply` holds.
    ///
    /// The information is taken over as a whole or not at all: where the
    /// reply cannot be read to the end of the map, `self` stays as it was.
    pub fn read(&mut self, reply: &[u8]) -> (r: Result<(), Error>)
        ensures
            match app_infos_reply_parse(reply@) {
                Ok(v) => r is Ok && final(self)@ == v,
                Err(e) => r == Err::<(), Error>(e) && *final(self) == *old(self),
            },
    {
        match AppInfos::deserialize(reply, 0) {
            Ok((infos, _)) => {
                *self = infos;
                Ok(())
            },
            Err(e) => Err(e),
        }
    }
}

/// The state of the cloud account.
#[derive(Clone, Debug, PartialEq)]
pub struct ServiceInfo {
    /// Whether the cloud is enabled.
    pub enable_cloud: bool,
    /// The identity of the account.
    pub account_id: String,
    /// The space of the account, in kilobytes.
    pub total_space: u64,
    /// The space that is left, in kilobytes.
    pub remain_space: u64,
    /// The user of the device.
    pub user: i32,
}

/// The mathematical model of a [`ServiceInfo`].
pub struct ServiceInfoView {
    pub enable_cloud: bool,
    pub account_id: Seq<char>,
    pub total_space: u64,
    pub remain_space: u64,
    pub user: i32,
}

impl View for ServiceInfo {
    type V = ServiceInfoView;

    open spec fn view(&self) -> ServiceInfoView {
        ServiceInfoView {
            enable_cloud: self.enable_cloud,
            account_id: self.account_id@,
            total_space: self.total_space,
            remain_space: self.remain_space,
            user: self.user,
        }
    }
}

impl DeepView for ServiceInfo {
    type V = ServiceInfoView;

    open spec fn deep_view(&self) -> ServiceInfoView {
        self@
    }
}

impl Default for ServiceInfo {
    fn default() -> (r: ServiceInfo)
        ensures
            r@ == (ServiceInfoView {
                enable_cloud: false,
                account_id: Seq::empty(),
                total_space: 0,
                remain_space: 0,
                user: 0,
            }),
    {
        ServiceInfo {
            enable_cloud: false,
            account_id: String::new(),
            total_space: 0,
            remain_space: 0,
            user: 0,
        }
    }
}

/// The parts of the state of the account in the order in which they travel.
pub type ServiceInfoParts = (bool, (String, (u64, (u64, i32))));

/// The state of the account at `pos`: the switch, the account, the two spaces, the user.
#[verifier::opaque]
pub open spec fn service_info_parse(data: Seq<u8>, pos: int) -> Parsed<ServiceInfoView> {
    match ServiceInfoParts::parse(data, pos) {
        Err(e) => Err(e),
        Ok((f, end)) => Ok(
            (
                ServiceInfoView {
                    enable_cloud: f.0,
                    account_id: f.1.0,
                    total_space: f.1.1.0,
                    remain_space: f.1.1.1.0,
                    user: f.1.1.1.1,
                },
                end,
            ),
        ),
    }
}

/// What a reply to the request for the state of the account holds: that
/// state, from the first byte on.
pub open spec fn service_info_reply_parse(data: Seq<u8>) -> Result<ServiceInfoView, Error> {
    match service_info_parse(data, 0) {
        Err(e) => Err(e),
        Ok((info, _)) => Ok(info),
    }
}

impl Deserialize for ServiceInfo {
    open spec fn parse(data: Seq<u8>, pos: int) -> Parsed<ServiceInfoView> {
        service_info_parse(data, pos)
    }

    proof fn lemma_parse_bounds(data: Seq<u8>, pos: int) {
        reveal(service_info_parse);
        ServiceInfoParts::lemma_parse_bounds(data, pos);
    }

    fn deserialize(data: &[u8], pos: usize) -> (r: Result<(ServiceInfo, usize), Error>) {
        proof {
            reveal(service_info_parse);
        }
        match ServiceInfoParts::deserialize(data, pos) {
            Ok(((enable_cloud, (account_id, (total_space, (remain_space, user)))), end)) => Ok(
                (ServiceInfo { enable_cloud, account_id, total_space, remain_space, user }, end),
            ),
            Err(e) => Err(e),
        }
    }
}

impl ServiceInfo {
    /// Takes over the state of the account that `reply` holds.
    ///
    /// The state is taken over as a whole or not at all: where the reply
    /// cannot be read to the end of the state, `self` stays as it was.
    pub fn read(&mut self, reply: &[u8]) -> (r: Result<(), Error>)
        ensures
            match service_info_reply_parse(reply@) {
                Ok(v) => r is Ok && final(self)@ == v,
                Err(e) => r == Err::<(), Error>(e) && *final(self) == *old(self),
            },
    {
        match ServiceInfo::deserialize(reply, 0) {
            Ok((info, _)) => {
                *self = info;
                Ok(())
            },
            Err(e) => Err(e),
        }
    }
}

} // verus!
