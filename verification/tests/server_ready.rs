use std::time::SystemTime;
use ylong_cloud_extension::ipc_conn::asset::{download_request, finish_transfer, upload_request};
use ylong_cloud_extension::ipc_conn::{
    AssetLoaderFunc, AssetStatus, CloudAsset, CloudAssets, CloudServiceFunc, Connect, FieldType,
    MsgParcel, Request, String16, Subscription, UnsubscriptionInfo,
};

// A stand-in for the service: it answers a request as the service would.

fn write_field(reply: &mut MsgParcel, name: &str, typ: i32, primary: bool, nullable: bool) {
    reply.write(&String16::new(name)).unwrap();
    reply.write(&String16::new(name)).unwrap();
    reply.write(&typ).unwrap();
    reply.write(&primary).unwrap();
    reply.write(&nullable).unwrap();
}

fn write_table(reply: &mut MsgParcel, alias: &str, name: &str, with_attachments: bool) {
    reply.write(&String16::new(alias)).unwrap();
    reply.write(&String16::new(name)).unwrap();
    if with_attachments {
        reply.write(&5_i32).unwrap();
        write_field(reply, "attachments", 7, false, true);
    } else {
        reply.write(&4_i32).unwrap();
    }
    write_field(reply, "data", 3, false, true);
    write_field(reply, "recycled", 4, false, true);
    write_field(reply, "recycledTime", 1, false, true);
    write_field(reply, "uuid", 3, true, false);
}

fn schema_reply(bundle_name: &str) -> Vec<u8> {
    let mut reply = MsgParcel::new();
    reply.write(&0_i32).unwrap();
    reply.write(&100_i32).unwrap();
    reply.write(&String16::new(bundle_name)).unwrap();
    reply.write(&1_i32).unwrap();
    reply.write(&String16::new("notepad")).unwrap();
    reply.write(&String16::new("notepad")).unwrap();
    reply.write(&5_i32).unwrap();
    write_table(&mut reply, "notetag", "cloud_folders", false);
    write_table(&mut reply, "shorthand", "cloud_tasks", true);
    write_table(&mut reply, "note", "cloud_old_notes", true);
    write_table(&mut reply, "noteattachment", "cloud_attachments", true);
    write_table(&mut reply, "newnote", "cloud_notes", true);
    reply.into_bytes()
}

fn app_infos_reply() -> Vec<u8> {
    let mut reply = MsgParcel::new();
    reply.write(&3_i32).unwrap();
    for bundle in [
        "com.huawei.hmos.calendardata",
        "com.huawei.hmos.notepad",
        "com.ohos.contacts",
    ] {
        reply.write(&String16::new(bundle)).unwrap();
        reply.write(&String16::new("10055832")).unwrap();
        reply.write(&String16::new(bundle)).unwrap();
        reply.write(&1_i32).unwrap();
        reply.write(&0_i32).unwrap();
    }
    reply.into_bytes()
}

fn service_info_reply() -> Vec<u8> {
    let mut reply = MsgParcel::new();
    reply.write(&true).unwrap();
    reply.write(&String16::new("2850086000356238647")).unwrap();
    reply.write(&536870912000_u64).unwrap();
    reply.write(&536844326007_u64).unwrap();
    reply.write(&100_i32).unwrap();
    reply.into_bytes()
}

fn subscribe_reply() -> Vec<u8> {
    let mut reply = MsgParcel::new();
    reply.write(&0_i32).unwrap();
    reply.write(&86400_i64).unwrap();
    reply.write(&1_i32).unwrap();
    reply.write(&String16::new("notepad")).unwrap();
    reply.write(&1_i32).unwrap();
    reply.write(&String16::new("newnote")).unwrap();
    reply.write(&String16::new("sub-1")).unwrap();
    reply.into_bytes()
}

// Answers a request to move assets: every asset of the batch is given back as moved.
fn transfer_reply(request: &Request) -> Vec<u8> {
    let mut sent = MsgParcel::from_bytes(request.data.clone());
    sent.read::<String16>().unwrap();
    sent.read::<String16>().unwrap();
    sent.read::<String16>().unwrap();
    let assets = sent.read::<CloudAssets>().unwrap();
    let mut reply = MsgParcel::new();
    reply.write(&(assets.0.len() as i32)).unwrap();
    for asset in assets.0.iter() {
        reply.write(&0_i32).unwrap();
        reply.write(asset).unwrap();
    }
    reply.into_bytes()
}

fn two_assets() -> CloudAssets {
    let mut assets = CloudAssets::default();

    let instant = SystemTime::now()
        .duration_since(SystemTime::UNIX_EPOCH)
        .unwrap()
        .as_secs()
        .to_string();
    let asset_one = CloudAsset {
        asset_id: "".to_string(),
        asset_name: "whj_1.txt".to_string(),
        hash: "".to_string(),
        uri: "file:://com.huawei.hmos.notepad/data/storage/el2/distributedfiles/dir/whj_1.txt"
            .to_string(),
        sub_path: "12345_whj".to_string(),
        create_time: instant.clone(),
        modify_time: instant.clone(),
        size: "2508026".to_string(),
        status: AssetStatus::Insert,
    };
    let asset_two = CloudAsset {
        asset_id: "".to_string(),
        asset_name: "whj_2.txt".to_string(),
        hash: "".to_string(),
        uri: "file:://com.huawei.hmos.notepad/data/storage/el2/distributedfiles/dir/whj_2.txt"
            .to_string(),
        sub_path: "12345_whj_2".to_string(),
        create_time: instant.clone(),
        modify_time: instant,
        size: "6458562".to_string(),
        status: AssetStatus::Insert,
    };
    assets.0.push(asset_one);
    assets.0.push(asset_two);
    assets
}

#[test]
fn ut_asset_loader_download() {
    let assets = two_assets();

    let table = "cloud_notes";
    let gid = "Fh-N0N6T454fidsh9ds1KcJdUb5wVeicH";
    let prefix = "cb100ed1$96e$431e$8b35$8a5d96056a71";
    let request = download_request(table, gid, prefix, &assets).unwrap();
    assert_eq!(request.code, AssetLoaderFunc::Download.code());
    let result = finish_transfer(Ok(transfer_reply(&request)));
    assert!(result.is_ok());
    let outcomes = result.unwrap();
    assert_eq!(outcomes.len(), 2);
    assert_eq!(outcomes[0], Ok(assets.0[0].clone()));
    assert_eq!(outcomes[1], Ok(assets.0[1].clone()));
}

#[test]
fn ut_asset_loader_upload() {
    let assets = two_assets();

    let table = "cloud_notes";
    let gid = "Fh-N0N6T454fidsh9ds1KcJdUb5wVeicH";
    let prefix = "cb100ed1$96e$431e$8b35$8a5d96056a71";
    let request = upload_request(table, gid, prefix, &assets).unwrap();
    assert_eq!(request.code, AssetLoaderFunc::Upload.code());
    let result = finish_transfer(Ok(transfer_reply(&request)));
    assert!(result.is_ok());
    let outcomes = result.unwrap();
    assert_eq!(outcomes.len(), 2);
    assert_eq!(outcomes[0], Ok(assets.0[0].clone()));
    assert_eq!(outcomes[1], Ok(assets.0[1].clone()));
}

#[test]
fn ut_connect_get_app_brief_info() {
    let user_id = 100;
    let mut connect = Connect::new();
    let request = Connect::app_brief_info_request();
    assert_eq!(request.code, CloudServiceFunc::GetAppBriefInfo.code());
    connect
        .get_app_brief_info(user_id, Ok(app_infos_reply()))
        .unwrap();
    let app_infos = &connect.infos(user_id).unwrap().app_infos.0;
    assert_eq!(app_infos.len(), 3);

    let app_info_one = app_infos.get("com.huawei.hmos.calendardata").unwrap();
    assert_eq!(app_info_one.app_id, String::from("10055832"));
    assert_eq!(
        app_info_one.bundle_name,
        String::from("com.huawei.hmos.calendardata")
    );
    assert!(app_info_one.cloud_switch);
    assert_eq!(app_info_one.instance_id, 0);

    let app_info_two = app_infos.get("com.huawei.hmos.notepad").unwrap();
    assert_eq!(app_info_two.app_id, String::from("10055832"));
    assert_eq!(
        app_info_two.bundle_name,
        String::from("com.huawei.hmos.notepad")
    );
    assert!(app_info_two.cloud_switch);
    assert_eq!(app_info_two.instance_id, 0);

    let app_info_three = app_infos.get("com.ohos.contacts").unwrap();
    assert_eq!(app_info_three.app_id, String::from("10055832"));
    assert_eq!(
        app_info_three.bundle_name,
        String::from("com.ohos.contacts")
    );
    assert!(app_info_three.cloud_switch);
    assert_eq!(app_info_three.instance_id, 0);
}

#[test]
fn ut_connect_get_service_info() {
    let user_id = 100;
    let mut connect = Connect::new();
    let request = Connect::service_info_request();
    assert_eq!(request.code, CloudServiceFunc::GetServiceInfo.code());
    connect
        .get_service_info(user_id, Ok(service_info_reply()))
        .unwrap();
    let service_info = &connect.infos(user_id).unwrap().service_info;
    assert_eq!(service_info.account_id, String::from("2850086000356238647"));
    assert_eq!(service_info.remain_space, 536844326007);
    assert_eq!(service_info.total_space, 536870912000);
}

#[test]
fn ut_connect_get_app_schema() {
    let user_id = 100;
    let bundle_name = String::from("com.huawei.hmos.notepad");
    let mut connect = Connect::new();
    let request = Connect::app_schema_request(&bundle_name).unwrap();
    assert_eq!(request.code, CloudServiceFunc::GetAppSchema.code());
    connect
        .get_app_schema(user_id, Ok(schema_reply(&bundle_name)))
        .unwrap();
    let app_schema = &connect.infos(user_id).unwrap().app_schema;
    assert_eq!(
        app_schema.bundle_name,
        String::from("com.huawei.hmos.notepad")
    );
    assert_eq!(app_schema.version, 100);
    assert_eq!(app_schema.databases.0.len(), 1);
    let databases = &app_schema.databases.0;

    assert_eq!(databases[0].name, String::from("notepad"));
    assert_eq!(databases[0].alias, String::from("notepad"));

    assert_eq!(databases[0].tables.0.len(), 5);
    assert_eq!(databases[0].tables.0[0].alias, String::from("notetag"));
    assert_eq!(
        databases[0].tables.0[0].table_name,
        String::from("cloud_folders")
    );
    assert_eq!(databases[0].tables.0[0].fields.0.len(), 4);
    assert_eq!(
        databases[0].tables.0[0].fields.0[0].alias,
        String::from("data")
    );
    assert_eq!(
        databases[0].tables.0[0].fields.0[0].col_name,
        String::from("data")
    );
    assert!(databases[0].tables.0[0].fields.0[0].nullable);
    assert!(!databases[0].tables.0[0].fields.0[0].primary);
    assert_eq!(databases[0].tables.0[0].fields.0[0].typ, FieldType::Text);
    assert_eq!(
        databases[0].tables.0[0].fields.0[1].alias,
        String::from("recycled")
    );
    assert_eq!(
        databases[0].tables.0[0].fields.0[1].col_name,
        String::from("recycled")
    );
    assert!(databases[0].tables.0[0].fields.0[1].nullable);
    assert!(!databases[0].tables.0[0].fields.0[1].primary);
    assert_eq!(databases[0].tables.0[0].fields.0[1].typ, FieldType::Bool);
    assert_eq!(
        databases[0].tables.0[0].fields.0[2].alias,
        String::from("recycledTime")
    );
    assert_eq!(
        databases[0].tables.0[0].fields.0[2].col_name,
        String::from("recycledTime")
    );
    assert!(databases[0].tables.0[0].fields.0[2].nullable);
    assert!(!databases[0].tables.0[0].fields.0[2].primary);
    assert_eq!(databases[0].tables.0[0].fields.0[2].typ, FieldType::Number);
    assert_eq!(
        databases[0].tables.0[0].fields.0[3].alias,
        String::from("uuid")
    );
    assert_eq!(
        databases[0].tables.0[0].fields.0[3].col_name,
        String::from("uuid")
    );
    assert!(!databases[0].tables.0[0].fields.0[3].nullable);
    assert!(databases[0].tables.0[0].fields.0[3].primary);
    assert_eq!(databases[0].tables.0[0].fields.0[3].typ, FieldType::Text);

    assert_eq!(databases[0].tables.0[1].alias, String::from("shorthand"));
    assert_eq!(
        databases[0].tables.0[1].table_name,
        String::from("cloud_tasks")
    );
    assert_eq!(databases[0].tables.0[1].fields.0.len(), 5);
    assert_eq!(
        databases[0].tables.0[1].fields.0[0].alias,
        String::from("attachments")
    );
    assert_eq!(
        databases[0].tables.0[1].fields.0[0].col_name,
        String::from("attachments")
    );
    assert!(databases[0].tables.0[1].fields.0[0].nullable);
    assert!(!databases[0].tables.0[1].fields.0[0].primary);
    assert_eq!(databases[0].tables.0[1].fields.0[0].typ, FieldType::Assets);
    assert_eq!(
        databases[0].tables.0[1].fields.0[1].alias,
        String::from("data")
    );
    assert_eq!(
        databases[0].tables.0[1].fields.0[1].col_name,
        String::from("data")
    );
    assert!(databases[0].tables.0[1].fields.0[1].nullable);
    assert!(!databases[0].tables.0[1].fields.0[1].primary);
    assert_eq!(databases[0].tables.0[1].fields.0[1].typ, FieldType::Text);
    assert_eq!(
        databases[0].tables.0[1].fields.0[2].alias,
        String::from("recycled")
    );
    assert_eq!(
        databases[0].tables.0[1].fields.0[2].col_name,
        String::from("recycled")
    );
    assert!(databases[0].tables.0[1].fields.0[2].nullable);
    assert!(!databases[0].tables.0[1].fields.0[2].primary);
    assert_eq!(databases[0].tables.0[1].fields.0[2].typ, FieldType::Bool);
    assert_eq!(
        databases[0].tables.0[1].fields.0[3].alias,
        String::from("recycledTime")
    );
    assert_eq!(
        databases[0].tables.0[1].fields.0[3].col_name,
        String::from("recycledTime")
    );
    assert!(databases[0].tables.0[1].fields.0[3].nullable);
    assert!(!databases[0].tables.0[1].fields.0[3].primary);
    assert_eq!(databases[0].tables.0[1].fields.0[3].typ, FieldType::Number);
    assert_eq!(
        databases[0].tables.0[1].fields.0[4].alias,
        String::from("uuid")
    );
    assert_eq!(
        databases[0].tables.0[1].fields.0[4].col_name,
        String::from("uuid")
    );
    assert!(!databases[0].tables.0[1].fields.0[4].nullable);
    assert!(databases[0].tables.0[1].fields.0[4].primary);
    assert_eq!(databases[0].tables.0[1].fields.0[4].typ, FieldType::Text);

    assert_eq!(databases[0].tables.0[2].alias, String::from("note"));
    assert_eq!(
        databases[0].tables.0[2].table_name,
        String::from("cloud_old_notes")
    );
    assert_eq!(databases[0].tables.0[2].fields.0.len(), 5);
    assert_eq!(
        databases[0].tables.0[2].fields.0[0].alias,
        String::from("attachments")
    );
    assert_eq!(
        databases[0].tables.0[2].fields.0[0].col_name,
        String::from("attachments")
    );
    assert!(databases[0].tables.0[2].fields.0[0].nullable);
    assert!(!databases[0].tables.0[2].fields.0[0].primary);
    assert_eq!(databases[0].tables.0[2].fields.0[0].typ, FieldType::Assets);
    assert_eq!(
        databases[0].tables.0[2].fields.0[1].alias,
        String::from("data")
    );
    assert_eq!(
        databases[0].tables.0[2].fields.0[1].col_name,
        String::from("data")
    );
    assert!(databases[0].tables.0[2].fields.0[1].nullable);
    assert!(!databases[0].tables.0[2].fields.0[1].primary);
    assert_eq!(databases[0].tables.0[2].fields.0[1].typ, FieldType::Text);
    assert_eq!(
        databases[0].tables.0[2].fields.0[2].alias,
        String::from("recycled")
    );
    assert_eq!(
        databases[0].tables.0[2].fields.0[2].col_name,
        String::from("recycled")
    );
    assert!(databases[0].tables.0[2].fields.0[2].nullable);
    assert!(!databases[0].tables.0[2].fields.0[2].primary);
    assert_eq!(databases[0].tables.0[2].fields.0[2].typ, FieldType::Bool);
    assert_eq!(
        databases[0].tables.0[2].fields.0[3].alias,
        String::from("recycledTime")
    );
    assert_eq!(
        databases[0].tables.0[2].fields.0[3].col_name,
        String::from("recycledTime")
    );
    assert!(databases[0].tables.0[2].fields.0[3].nullable);
    assert!(!databases[0].tables.0[2].fields.0[3].primary);
    assert_eq!(databases[0].tables.0[2].fields.0[3].typ, FieldType::Number);
    assert_eq!(
        databases[0].tables.0[2].fields.0[4].alias,
        String::from("uuid")
    );
    assert_eq!(
        databases[0].tables.0[2].fields.0[4].col_name,
        String::from("uuid")
    );
    assert!(!databases[0].tables.0[2].fields.0[4].nullable);
    assert!(databases[0].tables.0[2].fields.0[4].primary);
    assert_eq!(databases[0].tables.0[2].fields.0[4].typ, FieldType::Text);

    assert_eq!(
        databases[0].tables.0[3].alias,
        String::from("noteattachment")
    );
    assert_eq!(
        databases[0].tables.0[3].table_name,
        String::from("cloud_attachments")
    );
    assert_eq!(databases[0].tables.0[3].fields.0.len(), 5);
    assert_eq!(
        databases[0].tables.0[3].fields.0[0].alias,
        String::from("attachments")
    );
    assert_eq!(
        databases[0].tables.0[3].fields.0[0].col_name,
        String::from("attachments")
    );
    assert!(databases[0].tables.0[3].fields.0[0].nullable);
    assert!(!databases[0].tables.0[3].fields.0[0].primary);
    assert_eq!(databases[0].tables.0[3].fields.0[0].typ, FieldType::Assets);
    assert_eq!(
        databases[0].tables.0[3].fields.0[1].alias,
        String::from("data")
    );
    assert_eq!(
        databases[0].tables.0[3].fields.0[1].col_name,
        String::from("data")
    );
    assert!(databases[0].tables.0[3].fields.0[1].nullable);
    assert!(!databases[0].tables.0[3].fields.0[1].primary);
    assert_eq!(databases[0].tables.0[3].fields.0[1].typ, FieldType::Text);
    assert_eq!(
        databases[0].tables.0[3].fields.0[2].alias,
        String::from("recycled")
    );
    assert_eq!(
        databases[0].tables.0[3].fields.0[2].col_name,
        String::from("recycled")
    );
    assert!(databases[0].tables.0[3].fields.0[2].nullable);
    assert!(!databases[0].tables.0[3].fields.0[2].primary);
    assert_eq!(databases[0].tables.0[3].fields.0[2].typ, FieldType::Bool);
    assert_eq!(
        databases[0].tables.0[3].fields.0[3].alias,
        String::from("recycledTime")
    );
    assert_eq!(
        databases[0].tables.0[3].fields.0[3].col_name,
        String::from("recycledTime")
    );
    assert!(databases[0].tables.0[3].fields.0[3].nullable);
    assert!(!databases[0].tables.0[3].fields.0[3].primary);
    assert_eq!(databases[0].tables.0[3].fields.0[3].typ, FieldType::Number);
    assert_eq!(
        databases[0].tables.0[3].fields.0[4].alias,
        String::from("uuid")
    );
    assert_eq!(
        databases[0].tables.0[3].fields.0[4].col_name,
        String::from("uuid")
    );
    assert!(!databases[0].tables.0[3].fields.0[4].nullable);
    assert!(databases[0].tables.0[3].fields.0[4].primary);
    assert_eq!(databases[0].tables.0[3].fields.0[4].typ, FieldType::Text);

    assert_eq!(databases[0].tables.0[4].alias, String::from("newnote"));
    assert_eq!(
        databases[0].tables.0[4].table_name,
        String::from("cloud_notes")
    );
    assert_eq!(databases[0].tables.0[4].fields.0.len(), 5);
    assert_eq!(
        databases[0].tables.0[4].fields.0[0].alias,
        String::from("attachments")
    );
    assert_eq!(
        databases[0].tables.0[4].fields.0[0].col_name,
        String::from("attachments")
    );
    assert!(databases[0].tables.0[4].fields.0[0].nullable);
    assert!(!databases[0].tables.0[4].fields.0[0].primary);
    assert_eq!(databases[0].tables.0[4].fields.0[0].typ, FieldType::Assets);
    assert_eq!(
        databases[0].tables.0[4].fields.0[1].alias,
        String::from("data")
    );
    assert_eq!(
        databases[0].tables.0[4].fields.0[1].col_name,
        String::from("data")
    );
    assert!(databases[0].tables.0[4].fields.0[1].nullable);
    assert!(!databases[0].tables.0[4].fields.0[1].primary);
    assert_eq!(databases[0].tables.0[4].fields.0[1].typ, FieldType::Text);
    assert_eq!(
        databases[0].tables.0[4].fields.0[2].alias,
        String::from("recycled")
    );
    assert_eq!(
        databases[0].tables.0[4].fields.0[2].col_name,
        String::from("recycled")
    );
    assert!(databases[0].tables.0[4].fields.0[2].nullable);
    assert!(!databases[0].tables.0[4].fields.0[2].primary);
    assert_eq!(databases[0].tables.0[4].fields.0[2].typ, FieldType::Bool);
    assert_eq!(
        databases[0].tables.0[4].fields.0[3].alias,
        String::from("recycledTime")
    );
    assert_eq!(
        databases[0].tables.0[4].fields.0[3].col_name,
        String::from("recycledTime")
    );
    assert!(databases[0].tables.0[4].fields.0[3].nullable);
    assert!(!databases[0].tables.0[4].fields.0[3].primary);
    assert_eq!(databases[0].tables.0[4].fields.0[3].typ, FieldType::Number);
    assert_eq!(
        databases[0].tables.0[4].fields.0[4].alias,
        String::from("uuid")
    );
    assert_eq!(
        databases[0].tables.0[4].fields.0[4].col_name,
        String::from("uuid")
    );
    assert!(!databases[0].tables.0[4].fields.0[4].nullable);
    assert!(databases[0].tables.0[4].fields.0[4].primary);
    assert_eq!(databases[0].tables.0[4].fields.0[4].typ, FieldType::Text);
}

#[test]
fn ut_connect_subscribe() {
    let user_id = 100;
    let expiration = 1693488896462;
    let bundle_name = String::from("com.huawei.hmos.notepad");
    let mut connect = Connect::new();
    connect
        .get_app_schema(user_id, Ok(schema_reply(&bundle_name)))
        .unwrap();
    let databases = &connect.infos(user_id).unwrap().app_schema.databases;

    let request = Subscription::subscribe_request(expiration, &bundle_name, databases).unwrap();
    assert_eq!(request.code, CloudServiceFunc::Subscribe.code());
    let result = Subscription::subscribe(Ok(subscribe_reply()));
    assert!(result.is_ok());
}

#[test]
fn ut_connect_unsubscribe() {
    let user_id = 100;
    let expiration = 1693488896462;
    let bundle_name = String::from("com.huawei.hmos.notepad");
    let mut connect = Connect::new();
    connect
        .get_app_schema(user_id, Ok(schema_reply(&bundle_name)))
        .unwrap();
    let databases = &connect.infos(user_id).unwrap().app_schema.databases;

    let request = Subscription::subscribe_request(expiration, &bundle_name, databases).unwrap();
    assert_eq!(request.code, CloudServiceFunc::Subscribe.code());
    let result = Subscription::subscribe(Ok(subscribe_reply()));
    assert!(result.is_ok());

    let mut unsubscribe_info = UnsubscriptionInfo::default();
    unsubscribe_info.0.insert(
        String::from("com.huawei.hmos.notepad"),
        vec![String::from("notepad")],
    );
    let request = Subscription::unsubscribe_request(&unsubscribe_info).unwrap();
    assert_eq!(request.code, CloudServiceFunc::Unsubscribe.code());
    let result = Subscription::unsubscribe(Ok(Vec::new()));
    assert!(result.is_ok());
}
