use ylong_cloud_extension::ipc_conn::{
    vec_raw_read, vec_raw_write, AssetStatus, CloudAsset, CloudAssets, Error, Field, FieldRaw,
    FieldType, MsgParcel, String16, StringMap, SwitchStatus, ValueBucket,
};

fn written<T: ylong_cloud_extension::ipc_conn::Serialize>(value: &T) -> Vec<u8> {
    let mut parcel = MsgParcel::new();
    parcel.write(value).unwrap();
    parcel.into_bytes()
}

fn text_bytes(text: &str) -> Vec<u8> {
    let units: Vec<u16> = text.encode_utf16().collect();
    let mut bytes = (units.len() as i32).to_le_bytes().to_vec();
    for unit in units {
        bytes.extend_from_slice(&unit.to_le_bytes());
    }
    bytes
}

fn read_back(value: &FieldRaw) -> FieldRaw {
    let mut parcel = MsgParcel::from_bytes(written(value));
    let found = parcel.read::<FieldRaw>().unwrap();
    assert_eq!(parcel.read_position(), parcel.len());
    found
}

fn sample_asset(name: &str) -> CloudAsset {
    CloudAsset {
        asset_id: format!("id-{name}"),
        asset_name: name.to_string(),
        hash: format!("hash-{name}"),
        uri: format!("file://bundle/{name}"),
        sub_path: format!("sub/{name}"),
        create_time: "1700000000".to_string(),
        modify_time: "1700000001".to_string(),
        size: "4096".to_string(),
        status: AssetStatus::Update,
    }
}

#[test]
fn scalars_travel_least_significant_byte_first() {
    assert_eq!(written(&0x0102_0304_u32), vec![4, 3, 2, 1]);
    assert_eq!(written(&-2_i32), vec![0xfe, 0xff, 0xff, 0xff]);
    assert_eq!(written(&i32::MIN), vec![0, 0, 0, 0x80]);
    assert_eq!(
        written(&0x0102_0304_0506_0708_u64),
        vec![8, 7, 6, 5, 4, 3, 2, 1]
    );
    assert_eq!(written(&-1_i64), vec![0xff; 8]);
    assert_eq!(written(&i64::MIN), vec![0, 0, 0, 0, 0, 0, 0, 0x80]);
    assert_eq!(written(&7_u8), vec![7]);
    assert_eq!(written(&true), vec![1, 0, 0, 0]);
    assert_eq!(written(&false), vec![0, 0, 0, 0]);
}

#[test]
fn scalars_are_read_back() {
    let mut parcel = MsgParcel::new();
    parcel.write(&u32::MAX).unwrap();
    parcel.write(&i32::MIN).unwrap();
    parcel.write(&u64::MAX).unwrap();
    parcel.write(&i64::MIN).unwrap();
    parcel.write(&200_u8).unwrap();
    parcel.write(&true).unwrap();
    assert_eq!(parcel.len(), 4 + 4 + 8 + 8 + 1 + 4);
    assert_eq!(parcel.read_position(), 0);
    assert_eq!(parcel.read::<u32>(), Ok(u32::MAX));
    assert_eq!(parcel.read::<i32>(), Ok(i32::MIN));
    assert_eq!(parcel.read::<u64>(), Ok(u64::MAX));
    assert_eq!(parcel.read::<i64>(), Ok(i64::MIN));
    assert_eq!(parcel.read::<u8>(), Ok(200));
    assert_eq!(parcel.read::<bool>(), Ok(true));
    assert_eq!(parcel.read_position(), parcel.len());
}

#[test]
fn any_word_but_zero_reads_as_true() {
    assert_eq!(MsgParcel::from_bytes(vec![2, 0, 0, 0]).read::<bool>(), Ok(true));
    assert_eq!(MsgParcel::from_bytes(vec![0, 0, 0, 1]).read::<bool>(), Ok(true));
    assert_eq!(MsgParcel::from_bytes(vec![0, 0, 0, 0]).read::<bool>(), Ok(false));
}

#[test]
fn a_read_that_fails_leaves_the_cursor() {
    let mut parcel = MsgParcel::from_bytes(vec![1, 0, 0, 0, 9, 9]);
    assert_eq!(parcel.read::<i32>(), Ok(1));
    assert_eq!(parcel.read::<i32>(), Err(Error::ReadMsgParcelFailed));
    assert_eq!(parcel.read_position(), 4);
    assert_eq!(parcel.read::<u64>(), Err(Error::ReadMsgParcelFailed));
    assert_eq!(parcel.read_position(), 4);
    assert_eq!(parcel.read::<u8>(), Ok(9));
    assert_eq!(parcel.read_position(), 5);
    assert_eq!(parcel.as_bytes(), &[1, 0, 0, 0, 9, 9]);
}

#[test]
fn an_empty_buffer_holds_no_value() {
    assert_eq!(MsgParcel::new().read::<u8>(), Err(Error::ReadMsgParcelFailed));
    assert_eq!(MsgParcel::new().read::<bool>(), Err(Error::ReadMsgParcelFailed));
    assert_eq!(
        MsgParcel::new().read::<String>(),
        Err(Error::ReadMsgParcelFailed)
    );
    assert!(matches!(
        MsgParcel::new().read::<FieldRaw>(),
        Err(Error::ReadMsgParcelFailed)
    ));
    assert!(matches!(
        MsgParcel::new().read::<Vec<i32>>(),
        Err(Error::ReadMsgParcelFailed)
    ));
}

#[test]
fn a_text_is_a_count_and_its_code_units() {
    assert_eq!(
        written(&String::from("héllo")),
        vec![5, 0, 0, 0, b'h', 0, 0xe9, 0, b'l', 0, b'l', 0, b'o', 0]
    );
    assert_eq!(written(&String::new()), vec![0, 0, 0, 0]);
    assert_eq!(written(&String16::new("ab")), vec![2, 0, 0, 0, b'a', 0, b'b', 0]);
}

#[test]
fn a_char_beyond_the_basic_plane_is_a_pair_of_units() {
    let text = String::from("a\u{1F600}\u{10FFFF}\u{10000}");
    assert_eq!(
        written(&text),
        vec![
            7, 0, 0, 0, b'a', 0, 0x3d, 0xd8, 0x00, 0xde, 0xff, 0xdb, 0xff, 0xdf, 0x00, 0xd8,
            0x00, 0xdc
        ]
    );
    assert_eq!(MsgParcel::from_bytes(written(&text)).read::<String>(), Ok(text));
}

#[test]
fn texts_are_read_back() {
    for text in [
        "",
        "héllo",
        "plain ascii",
        "\u{0}\u{7f}\u{80}\u{7ff}\u{800}",
        "\u{d7ff}\u{e000}\u{ffff}",
        "汉字 и кириллица ✓ \u{1F600}",
    ] {
        let bytes = written(&text.to_string());
        assert_eq!(bytes, text_bytes(text));
        let mut parcel = MsgParcel::from_bytes(bytes.clone());
        assert_eq!(parcel.read::<String>(), Ok(text.to_string()));
        assert_eq!(parcel.read_position(), bytes.len());
        let mut parcel = MsgParcel::from_bytes(bytes);
        assert_eq!(parcel.read::<String16>().unwrap().get_string(), text);
    }
}

#[test]
fn a_text_of_broken_pairs_is_malformed() {
    let lone_high = vec![1, 0, 0, 0, 0x00, 0xd8];
    let lone_low = vec![1, 0, 0, 0, 0x00, 0xdc];
    let high_then_char = vec![2, 0, 0, 0, 0x00, 0xd8, b'a', 0];
    let high_then_high = vec![2, 0, 0, 0, 0x00, 0xd8, 0x00, 0xd8];
    let low_then_high = vec![2, 0, 0, 0, 0x00, 0xdc, 0x00, 0xd8];
    for bytes in [lone_high, lone_low, high_then_char, high_then_high, low_then_high] {
        let mut parcel = MsgParcel::from_bytes(bytes);
        assert_eq!(parcel.read::<String>(), Err(Error::MalformedValue));
        assert_eq!(parcel.read_position(), 0);
    }
}

#[test]
fn a_text_with_a_count_below_zero_is_malformed() {
    let mut parcel = MsgParcel::from_bytes(vec![0xff, 0xff, 0xff, 0xff, b'a', 0]);
    assert_eq!(parcel.read::<String>(), Err(Error::MalformedValue));
    let mut parcel = MsgParcel::from_bytes(vec![0, 0, 0, 0x80]);
    assert_eq!(parcel.read::<String16>(), Err(Error::MalformedValue));
}

#[test]
fn a_text_shorter_than_its_count_cannot_be_read() {
    let mut parcel = MsgParcel::from_bytes(vec![3, 0, 0, 0, b'a', 0, b'b', 0]);
    assert_eq!(parcel.read::<String>(), Err(Error::ReadMsgParcelFailed));
    let mut parcel = MsgParcel::from_bytes(vec![1, 0, 0, 0, b'a']);
    assert_eq!(parcel.read::<String>(), Err(Error::ReadMsgParcelFailed));
    let mut parcel = MsgParcel::from_bytes(vec![0xff, 0xff, 0xff, 0x7f, b'a', 0]);
    assert_eq!(parcel.read::<String>(), Err(Error::ReadMsgParcelFailed));
    let mut parcel = MsgParcel::from_bytes(vec![1, 0, 0]);
    assert_eq!(parcel.read::<String>(), Err(Error::ReadMsgParcelFailed));
}

#[test]
fn field_null_is_read_back() {
    assert_eq!(written(&FieldRaw::Null), vec![0, 0, 0, 0]);
    assert!(matches!(read_back(&FieldRaw::Null), FieldRaw::Null));
}

#[test]
fn field_number_is_read_back() {
    assert_eq!(
        written(&FieldRaw::Number(-1)),
        vec![1, 0, 0, 0, 0xff, 0xff, 0xff, 0xff, 0xff, 0xff, 0xff, 0xff]
    );
    assert!(matches!(read_back(&FieldRaw::Number(-1)), FieldRaw::Number(-1)));
    assert!(matches!(
        read_back(&FieldRaw::Number(i64::MAX)),
        FieldRaw::Number(i64::MAX)
    ));
}

#[test]
fn field_real_is_read_back() {
    let value = FieldRaw::Real(2.5_f64.to_bits());
    let mut expected = vec![2, 0, 0, 0];
    expected.extend_from_slice(&2.5_f64.to_le_bytes());
    assert_eq!(written(&value), expected);
    match read_back(&value) {
        FieldRaw::Real(bits) => assert_eq!(f64::from_bits(bits), 2.5),
        other => panic!("read {other:?}"),
    }
    match read_back(&FieldRaw::Real(f64::NAN.to_bits())) {
        FieldRaw::Real(bits) => assert_eq!(bits, f64::NAN.to_bits()),
        other => panic!("read {other:?}"),
    }
}

#[test]
fn field_text_is_read_back() {
    let value = FieldRaw::Text(String::from("héllo"));
    assert_eq!(
        written(&value),
        vec![3, 0, 0, 0, 5, 0, 0, 0, b'h', 0, 0xe9, 0, b'l', 0, b'l', 0, b'o', 0]
    );
    match read_back(&value) {
        FieldRaw::Text(text) => assert_eq!(text, "héllo"),
        other => panic!("read {other:?}"),
    }
}

#[test]
fn field_bool_is_read_back() {
    assert_eq!(written(&FieldRaw::Bool(true)), vec![4, 0, 0, 0, 1, 0, 0, 0]);
    assert!(matches!(read_back(&FieldRaw::Bool(true)), FieldRaw::Bool(true)));
    assert!(matches!(read_back(&FieldRaw::Bool(false)), FieldRaw::Bool(false)));
}

#[test]
fn field_blob_is_read_back() {
    let value = FieldRaw::Blob(vec![0, 1, 2]);
    assert_eq!(written(&value), vec![5, 0, 0, 0, 3, 0, 0, 0, 0, 1, 2]);
    match read_back(&value) {
        FieldRaw::Blob(bytes) => assert_eq!(bytes, vec![0, 1, 2]),
        other => panic!("read {other:?}"),
    }
    match read_back(&FieldRaw::Blob(Vec::new())) {
        FieldRaw::Blob(bytes) => assert!(bytes.is_empty()),
        other => panic!("read {other:?}"),
    }
}

#[test]
fn field_asset_is_read_back() {
    match read_back(&FieldRaw::Asset(CloudAsset::default())) {
        FieldRaw::Asset(asset) => assert_eq!(asset, CloudAsset::default()),
        other => panic!("read {other:?}"),
    }
    let asset = sample_asset("a.txt");
    match read_back(&FieldRaw::Asset(asset.clone())) {
        FieldRaw::Asset(found) => assert_eq!(found, asset),
        other => panic!("read {other:?}"),
    }
}

#[test]
fn field_assets_are_read_back() {
    let a = sample_asset("a.txt");
    let b = sample_asset("b.txt");
    match read_back(&FieldRaw::Assets(CloudAssets(vec![a.clone(), b.clone()]))) {
        FieldRaw::Assets(found) => assert_eq!(found.0, vec![a, b]),
        other => panic!("read {other:?}"),
    }
    match read_back(&FieldRaw::Assets(CloudAssets::default())) {
        FieldRaw::Assets(found) => assert!(found.0.is_empty()),
        other => panic!("read {other:?}"),
    }
}

#[test]
fn the_tag_of_a_field_value() {
    assert_eq!(FieldRaw::Null.tag(), 0);
    assert_eq!(FieldRaw::Number(0).tag(), 1);
    assert_eq!(FieldRaw::Real(0).tag(), 2);
    assert_eq!(FieldRaw::Text(String::new()).tag(), 3);
    assert_eq!(FieldRaw::Bool(false).tag(), 4);
    assert_eq!(FieldRaw::Blob(Vec::new()).tag(), 5);
    assert_eq!(FieldRaw::Asset(CloudAsset::default()).tag(), 6);
    assert_eq!(FieldRaw::Assets(CloudAssets::default()).tag(), 7);
    assert_eq!(u8::from(FieldRaw::Null), 0);
    assert_eq!(u8::from(FieldRaw::Real(1.5_f64.to_bits())), 2);
    assert_eq!(u8::from(FieldRaw::Blob(vec![9])), 5);
    assert_eq!(u8::from(FieldRaw::Assets(CloudAssets::default())), 7);
}

#[test]
fn a_tag_beyond_the_table_is_malformed() {
    for tag in [8_u32, 9, 255, 256, 0x0100_0000, u32::MAX] {
        let mut bytes = tag.to_le_bytes().to_vec();
        bytes.extend_from_slice(&[0; 16]);
        let mut parcel = MsgParcel::from_bytes(bytes);
        assert!(matches!(
            parcel.read::<FieldRaw>(),
            Err(Error::MalformedValue)
        ));
        assert_eq!(parcel.read_position(), 0);
    }
}

#[test]
fn a_tag_beyond_the_table_fails_what_holds_it() {
    let mut parcel = MsgParcel::new();
    parcel.write(&2_i32).unwrap();
    parcel.write(&FieldRaw::Number(1)).unwrap();
    parcel.write(&8_u32).unwrap();
    let mut parcel = MsgParcel::from_bytes(parcel.into_bytes());
    assert!(matches!(
        parcel.read::<Vec<FieldRaw>>(),
        Err(Error::MalformedValue)
    ));

    let mut parcel = MsgParcel::new();
    parcel.write(&2_i32).unwrap();
    parcel.write(&String::from("key1")).unwrap();
    parcel.write(&FieldRaw::Null).unwrap();
    parcel.write(&String::from("key2")).unwrap();
    parcel.write(&12_u32).unwrap();
    let mut parcel = MsgParcel::from_bytes(parcel.into_bytes());
    assert!(matches!(
        parcel.read::<ValueBucket>(),
        Err(Error::MalformedValue)
    ));
    assert_eq!(parcel.read_position(), 0);
}

#[test]
fn a_value_cut_short_cannot_be_read() {
    let whole = written(&FieldRaw::Asset(sample_asset("a.txt")));
    for cut in [0, 3, 4, 7, whole.len() / 2, whole.len() - 1] {
        let mut parcel = MsgParcel::from_bytes(whole[..cut].to_vec());
        assert!(matches!(
            parcel.read::<FieldRaw>(),
            Err(Error::ReadMsgParcelFailed)
        ));
    }
}

#[test]
fn an_empty_sequence_is_the_count_zero() {
    let empty: Vec<i64> = Vec::new();
    let mut bytes = Vec::new();
    vec_raw_write(&mut bytes, &empty).unwrap();
    assert_eq!(bytes, vec![0, 0, 0, 0]);
    assert_eq!(written(&empty), vec![0, 0, 0, 0]);
    let (found, end) = vec_raw_read::<i64>(&bytes, 0).unwrap();
    assert!(found.is_empty());
    assert_eq!(end, 4);
}

#[test]
fn a_sequence_keeps_its_order_and_length() {
    let items = vec![
        String::from("third"),
        String::from("first"),
        String::from("second"),
    ];
    let mut bytes = vec![0xaa];
    vec_raw_write(&mut bytes, &items).unwrap();
    assert_eq!(bytes[0], 0xaa);
    assert_eq!(&bytes[1..5], &[3, 0, 0, 0]);
    let (found, end) = vec_raw_read::<String>(&bytes, 1).unwrap();
    assert_eq!(found, items);
    assert_eq!(end, bytes.len());

    let numbers = vec![3_i32, -1, 2];
    assert_eq!(
        written(&numbers),
        vec![3, 0, 0, 0, 3, 0, 0, 0, 0xff, 0xff, 0xff, 0xff, 2, 0, 0, 0]
    );
    assert_eq!(
        MsgParcel::from_bytes(written(&numbers)).read::<Vec<i32>>(),
        Ok(numbers)
    );
}

#[test]
fn a_sequence_of_sequences_is_read_back() {
    let items = vec![vec![1_u8, 2], Vec::new(), vec![3]];
    assert_eq!(
        written(&items),
        vec![3, 0, 0, 0, 2, 0, 0, 0, 1, 2, 0, 0, 0, 0, 1, 0, 0, 0, 3]
    );
    assert_eq!(
        MsgParcel::from_bytes(written(&items)).read::<Vec<Vec<u8>>>(),
        Ok(items)
    );
}

#[test]
fn a_sequence_with_a_count_below_zero_is_malformed() {
    let bytes = vec![0xff, 0xff, 0xff, 0xff, 1, 0, 0, 0];
    assert_eq!(
        vec_raw_read::<i32>(&bytes, 0).map(|found| found.0),
        Err(Error::MalformedValue)
    );
}

#[test]
fn a_sequence_shorter_than_its_count_cannot_be_read() {
    let bytes = vec![2, 0, 0, 0, 1, 0, 0, 0];
    assert_eq!(
        vec_raw_read::<i32>(&bytes, 0).map(|found| found.0),
        Err(Error::ReadMsgParcelFailed)
    );
    let bytes = vec![0xff, 0xff, 0xff, 0x7f];
    assert_eq!(
        vec_raw_read::<u8>(&bytes, 0).map(|found| found.0),
        Err(Error::ReadMsgParcelFailed)
    );
    assert_eq!(
        vec_raw_read::<u8>(&bytes, 1).map(|found| found.0),
        Err(Error::ReadMsgParcelFailed)
    );
    assert_eq!(
        vec_raw_read::<u8>(&bytes, 100).map(|found| found.0),
        Err(Error::ReadMsgParcelFailed)
    );
}

#[test]
fn a_sequence_too_long_for_its_count_is_not_written() {
    let mut parcel = MsgParcel::new();
    parcel.write(&1_u8).unwrap();
    let blob = FieldRaw::Blob(vec![0_u8; 2_147_483_648]);
    assert_eq!(parcel.write(&blob), Err(Error::WriteMsgParcelFailed));
    assert_eq!(parcel.as_bytes(), &[1]);
}

#[test]
fn a_row_is_read_back_whatever_the_order() {
    let mut key1_first = MsgParcel::new();
    key1_first.write(&2_i32).unwrap();
    key1_first.write(&String::from("key1")).unwrap();
    key1_first.write(&FieldRaw::Null).unwrap();
    key1_first.write(&String::from("key2")).unwrap();
    key1_first.write(&FieldRaw::Number(1)).unwrap();

    let mut key2_first = MsgParcel::new();
    key2_first.write(&2_i32).unwrap();
    key2_first.write(&String::from("key2")).unwrap();
    key2_first.write(&FieldRaw::Number(1)).unwrap();
    key2_first.write(&String::from("key1")).unwrap();
    key2_first.write(&FieldRaw::Null).unwrap();

    for bytes in [key1_first.into_bytes(), key2_first.into_bytes()] {
        let row = MsgParcel::from_bytes(bytes).read::<ValueBucket>().unwrap();
        assert_eq!(row.0.len(), 2);
        assert!(matches!(row.0.get("key1"), Some(FieldRaw::Null)));
        assert!(matches!(row.0.get("key2"), Some(FieldRaw::Number(1))));
        assert!(row.0.get("key3").is_none());
    }
}

#[test]
fn a_row_that_was_written_is_read_back() {
    let mut row = ValueBucket::default();
    row.0.insert(String::from("key1"), FieldRaw::Null);
    row.0.insert(String::from("key2"), FieldRaw::Number(1));
    let bytes = written(&row);
    let mut expected = vec![2, 0, 0, 0];
    expected.extend(text_bytes("key1"));
    expected.extend([0, 0, 0, 0]);
    expected.extend(text_bytes("key2"));
    expected.extend([1, 0, 0, 0, 1, 0, 0, 0, 0, 0, 0, 0]);
    assert_eq!(bytes, expected);
    let found = MsgParcel::from_bytes(bytes).read::<ValueBucket>().unwrap();
    assert_eq!(found.0.len(), 2);
    assert!(matches!(found.0.get("key1"), Some(FieldRaw::Null)));
    assert!(matches!(found.0.get("key2"), Some(FieldRaw::Number(1))));
}

#[test]
fn a_row_with_a_key_twice_is_rejected() {
    let mut parcel = MsgParcel::new();
    parcel.write(&2_i32).unwrap();
    parcel.write(&String::from("key1")).unwrap();
    parcel.write(&FieldRaw::Null).unwrap();
    parcel.write(&String::from("key1")).unwrap();
    parcel.write(&FieldRaw::Number(1)).unwrap();
    let mut parcel = MsgParcel::from_bytes(parcel.into_bytes());
    assert!(matches!(
        parcel.read::<ValueBucket>(),
        Err(Error::DuplicateKey)
    ));
    assert_eq!(parcel.read_position(), 0);
}

#[test]
fn a_map_keeps_one_value_for_each_key() {
    let mut map: StringMap<i32> = StringMap::new();
    assert!(map.is_empty());
    assert_eq!(map.insert(String::from("b"), 1), None);
    assert_eq!(map.insert(String::from("a"), 2), None);
    assert_eq!(map.insert(String::from("b"), 3), Some(1));
    assert_eq!(map.len(), 2);
    assert!(!map.is_empty());
    assert!(map.contains_key("a"));
    assert!(!map.contains_key("c"));
    assert_eq!(map.get("b"), Some(&3));
    assert_eq!(map.get("a"), Some(&2));
    assert_eq!(map.get(""), None);
    assert_eq!(map.entry(0), Some((&String::from("b"), &3)));
    assert_eq!(map.entry(1), Some((&String::from("a"), &2)));
    assert_eq!(map.entry(2), None);
}

#[test]
fn the_codes_of_the_field_types() {
    let types = [
        FieldType::Null,
        FieldType::Number,
        FieldType::Real,
        FieldType::Text,
        FieldType::Bool,
        FieldType::Blob,
        FieldType::Asset,
        FieldType::Assets,
    ];
    for (code, typ) in types.iter().enumerate() {
        assert_eq!(typ.code(), code as u8);
        assert_eq!(u8::from(typ), code as u8);
        assert_eq!(FieldType::try_from(code as u8), Ok(*typ));
        assert_eq!(written(typ), (code as u32).to_le_bytes().to_vec());
        assert_eq!(MsgParcel::from_bytes(written(typ)).read::<FieldType>(), Ok(*typ));
    }
    assert_eq!(FieldType::try_from(8), Err(Error::InvalidFieldType));
    assert_eq!(FieldType::try_from(255), Err(Error::InvalidFieldType));
    assert_eq!(
        MsgParcel::from_bytes(vec![8, 0, 0, 0]).read::<FieldType>(),
        Err(Error::MalformedValue)
    );
    assert_eq!(
        MsgParcel::from_bytes(vec![0xff, 0xff, 0xff, 0xff]).read::<FieldType>(),
        Err(Error::MalformedValue)
    );
}

#[test]
fn the_codes_of_the_asset_statuses() {
    let statuses = [
        AssetStatus::Normal,
        AssetStatus::Insert,
        AssetStatus::Update,
        AssetStatus::Delete,
        AssetStatus::Abnormal,
        AssetStatus::Downloading,
    ];
    for (code, status) in statuses.iter().enumerate() {
        assert_eq!(status.code(), code as i32);
        assert_eq!(AssetStatus::from_code(code as i32), Some(*status));
        assert_eq!(
            MsgParcel::from_bytes(written(status)).read::<AssetStatus>(),
            Ok(*status)
        );
    }
    assert_eq!(AssetStatus::from_code(6), None);
    assert_eq!(AssetStatus::from_code(-1), None);
    assert_eq!(
        MsgParcel::from_bytes(vec![6, 0, 0, 0]).read::<AssetStatus>(),
        Err(Error::MalformedValue)
    );
}

#[test]
fn the_codes_of_the_switch_statuses() {
    assert_eq!(SwitchStatus::Close.code(), 0);
    assert_eq!(SwitchStatus::Open.code(), 1);
    assert_eq!(SwitchStatus::NotEnable.code(), 2);
    assert_eq!(
        MsgParcel::from_bytes(vec![3, 0, 0, 0]).read::<SwitchStatus>(),
        Err(Error::MalformedValue)
    );
}

#[test]
fn an_asset_travels_in_its_fixed_order() {
    let asset = sample_asset("a.txt");
    let mut parcel = MsgParcel::from_bytes(written(&asset));
    assert_eq!(parcel.read::<String>().unwrap(), asset.asset_name);
    assert_eq!(parcel.read::<String>().unwrap(), asset.uri);
    assert_eq!(parcel.read::<String>().unwrap(), asset.sub_path);
    assert_eq!(parcel.read::<String>().unwrap(), asset.create_time);
    assert_eq!(parcel.read::<String>().unwrap(), asset.modify_time);
    assert_eq!(parcel.read::<String>().unwrap(), asset.size);
    assert_eq!(parcel.read::<i32>().unwrap(), 2);
    assert_eq!(parcel.read::<String>().unwrap(), asset.asset_id);
    assert_eq!(parcel.read::<String>().unwrap(), asset.hash);
    assert_eq!(parcel.read_position(), parcel.len());
}

#[test]
fn an_asset_with_a_status_beyond_the_table_is_malformed() {
    let mut parcel = MsgParcel::new();
    for _ in 0..6 {
        parcel.write(&String::from("x")).unwrap();
    }
    parcel.write(&6_i32).unwrap();
    parcel.write(&String::from("x")).unwrap();
    parcel.write(&String::from("x")).unwrap();
    let mut parcel = MsgParcel::from_bytes(parcel.into_bytes());
    assert_eq!(parcel.read::<CloudAsset>(), Err(Error::MalformedValue));
}

#[test]
fn the_parts_of_an_asset_are_set_and_got() {
    let mut asset = CloudAsset::default();
    assert_eq!(asset.id(), "");
    assert_eq!(asset.status, AssetStatus::Normal);
    asset.set_id(String::from("id"));
    asset.set_name(String::from("name"));
    asset.set_uri(String::from("uri"));
    asset.set_local_path(String::from("path"));
    asset.set_create_time(String::from("1"));
    asset.set_modify_time(String::from("2"));
    asset.set_size(String::from("3"));
    asset.set_hash(String::from("hash"));
    assert_eq!(asset.id(), "id");
    assert_eq!(asset.name(), "name");
    assert_eq!(asset.uri(), "uri");
    assert_eq!(asset.local_path(), "path");
    assert_eq!(asset.create_time(), "1");
    assert_eq!(asset.modify_time(), "2");
    assert_eq!(asset.size(), "3");
    assert_eq!(asset.hash(), "hash");
    assert_eq!(asset.status, AssetStatus::Normal);
    asset.set_name(String::from("other"));
    assert_eq!(asset.name(), "other");
    assert_eq!(asset.id(), "id");
}

#[test]
fn a_field_goes_out_alias_first_and_comes_in_column_first() {
    let field = Field {
        col_name: String::from("column"),
        alias: String::from("alias"),
        typ: FieldType::Text,
        primary: true,
        nullable: false,
    };
    let mut parcel = MsgParcel::from_bytes(written(&field));
    assert_eq!(parcel.read::<String>().unwrap(), "alias");
    assert_eq!(parcel.read::<String>().unwrap(), "column");
    assert_eq!(parcel.read::<i32>().unwrap(), 3);
    assert_eq!(parcel.read::<bool>().unwrap(), true);
    assert_eq!(parcel.read::<bool>().unwrap(), false);

    let found = MsgParcel::from_bytes(written(&field))
        .read::<Field>()
        .unwrap();
    assert_eq!(found.col_name, "alias");
    assert_eq!(found.alias, "column");
    assert_eq!(found.typ, FieldType::Text);
    assert!(found.primary);
    assert!(!found.nullable);
}
