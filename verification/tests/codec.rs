use account_codec::BaseAccount;
use account_codec::BaseAccountJson;
use account_codec::DecodeError;
use account_codec::PublicKey;

const EXAMPLE_JSON: &str = "{\"@type\":\"/cosmos.auth.v1beta1.BaseAccount\",\"account_number\":\"2932070\",\"address\":\"terra1eml7g3ll6jkyhtfv2g0gvqnzzpy6kjyd7qr302\",\"pub_key\":{\"@type\":\"/cosmos.crypto.secp256k1.PubKey\",\"key\":\"AurYLJpdpq9l3T48uq7+5TrG7ngFa+mq96SNdDVyaIwC\"},\"sequence\":\"6\"}";

#[test]
fn json_round_trip() {
    let example_account = EXAMPLE_JSON.parse::<BaseAccount>().unwrap();
    assert_eq!(BaseAccount::TYPE_URL, "/cosmos.auth.v1beta1.BaseAccount");
    assert_eq!(EXAMPLE_JSON, example_account.to_json());
}

#[test]
fn concrete_scenario_fields() {
    let account = BaseAccount::from_json(EXAMPLE_JSON).unwrap();
    assert_eq!(account.account_number, 2932070);
    assert_eq!(account.sequence, 6);
    assert_eq!(account.address, "terra1eml7g3ll6jkyhtfv2g0gvqnzzpy6kjyd7qr302");
    let key = account.pub_key.expect("key should be present");
    assert_eq!(key.type_url, "/cosmos.crypto.secp256k1.PubKey");
    assert_eq!(key.key, "AurYLJpdpq9l3T48uq7+5TrG7ngFa+mq96SNdDVyaIwC");
}

fn sample_account(pub_key: Option<PublicKey>) -> BaseAccount {
    BaseAccount {
        address: "terra1eml7g3ll6jkyhtfv2g0gvqnzzpy6kjyd7qr302".to_string(),
        pub_key,
        account_number: 2932070,
        sequence: 6,
    }
}

#[test]
fn structural_round_trip_with_key() {
    let account = sample_account(Some(PublicKey {
        type_url: "/cosmos.crypto.secp256k1.PubKey".to_string(),
        key: "AurYLJpdpq9l3T48uq7+5TrG7ngFa+mq96SNdDVyaIwC".to_string(),
    }));
    let decoded = BaseAccount::from_json(&account.to_json()).unwrap();
    assert_eq!(decoded, account);
}

#[test]
fn structural_round_trip_without_key() {
    let account = sample_account(None);
    let decoded = BaseAccount::from_json(&account.to_json()).unwrap();
    assert_eq!(decoded, account);
}

#[test]
fn pub_key_null_decodes_to_absent() {
    let text = "{\"@type\":\"/cosmos.auth.v1beta1.BaseAccount\",\"account_number\":\"1\",\"address\":\"addr\",\"pub_key\":null,\"sequence\":\"2\"}";
    let account = BaseAccount::from_json(text).unwrap();
    assert!(account.pub_key.is_none());
    assert_eq!(account.account_number, 1);
    assert_eq!(account.sequence, 2);
    // The null form is the canonical one, so it round-trips exactly.
    assert_eq!(account.to_json(), text);
}

#[test]
fn pub_key_omitted_decodes_to_absent() {
    let text = "{\"@type\":\"/cosmos.auth.v1beta1.BaseAccount\",\"account_number\":\"1\",\"address\":\"addr\",\"sequence\":\"2\"}";
    let account = BaseAccount::from_json(text).unwrap();
    assert!(account.pub_key.is_none());
}

#[test]
fn absent_key_encodes_as_null() {
    let account = sample_account(None);
    assert!(account.to_json().contains("\"pub_key\":null"));
}

#[test]
fn tag_present_on_every_output() {
    let odd = BaseAccount {
        address: String::new(),
        pub_key: None,
        account_number: 0,
        sequence: u64::MAX,
    };
    assert!(odd
        .to_json()
        .starts_with("{\"@type\":\"/cosmos.auth.v1beta1.BaseAccount\""));
    let account = sample_account(None);
    assert!(account
        .to_json()
        .starts_with("{\"@type\":\"/cosmos.auth.v1beta1.BaseAccount\""));
}

#[test]
fn foreign_tag_is_accepted_and_not_retained() {
    // Decode does not compare the tag to the record's own constant; the
    // tag is dropped, so re-encoding writes the fixed one.
    let text = "{\"@type\":\"/some.other.Type\",\"account_number\":\"5\",\"address\":\"a\",\"pub_key\":null,\"sequence\":\"0\"}";
    let account = BaseAccount::from_json(text).unwrap();
    assert_eq!(account.account_number, 5);
    assert!(account
        .to_json()
        .starts_with("{\"@type\":\"/cosmos.auth.v1beta1.BaseAccount\""));
}

#[test]
fn missing_address_fails_invalid_json() {
    let text = "{\"@type\":\"/cosmos.auth.v1beta1.BaseAccount\",\"account_number\":\"2932070\",\"pub_key\":null,\"sequence\":\"6\"}";
    assert_eq!(BaseAccount::from_json(text), Err(DecodeError::InvalidJson));
}

#[test]
fn overflowing_account_number_fails_malformed_number() {
    let text = "{\"@type\":\"/cosmos.auth.v1beta1.BaseAccount\",\"account_number\":\"99999999999999999999\",\"address\":\"addr\",\"pub_key\":null,\"sequence\":\"6\"}";
    assert_eq!(
        BaseAccount::from_json(text),
        Err(DecodeError::MalformedNumber)
    );
}

#[test]
fn signed_sequence_fails_malformed_number() {
    let text = "{\"@type\":\"/cosmos.auth.v1beta1.BaseAccount\",\"account_number\":\"1\",\"address\":\"addr\",\"pub_key\":null,\"sequence\":\"-6\"}";
    assert_eq!(
        BaseAccount::from_json(text),
        Err(DecodeError::MalformedNumber)
    );
}

#[test]
fn empty_and_malformed_texts_fail_invalid_json() {
    assert_eq!(BaseAccount::from_json(""), Err(DecodeError::InvalidJson));
    assert_eq!(BaseAccount::from_json("{}"), Err(DecodeError::InvalidJson));
    assert_eq!(
        BaseAccount::from_json("not json at all"),
        Err(DecodeError::InvalidJson)
    );
}

#[test]
fn whitespace_between_tokens_is_accepted() {
    let text = "{ \"@type\" : \"/cosmos.auth.v1beta1.BaseAccount\",\n  \"account_number\": \"1\",\t\"address\": \"a\",\r\n  \"pub_key\": null , \"sequence\": \"2\" }";
    let account = BaseAccount::from_json(text).unwrap();
    assert_eq!(account.account_number, 1);
    assert_eq!(account.sequence, 2);
    assert_eq!(account.address, "a");
    assert!(account.pub_key.is_none());
}

#[test]
fn members_in_any_order_are_accepted() {
    let text = "{\"sequence\":\"6\",\"address\":\"addr\",\"pub_key\":null,\"@type\":\"/cosmos.auth.v1beta1.BaseAccount\",\"account_number\":\"2932070\"}";
    let account = BaseAccount::from_json(text).unwrap();
    assert_eq!(account.account_number, 2932070);
    assert_eq!(account.sequence, 6);
    assert_eq!(account.address, "addr");
}

#[test]
fn escapes_in_strings_are_read() {
    let text = "{\"@type\":\"/x\",\"account_number\":\"1\",\"address\":\"a\\\"b\\\\c\\n\",\"pub_key\":null,\"sequence\":\"2\"}";
    let account = BaseAccount::from_json(text).unwrap();
    assert_eq!(account.address, "a\"b\\c\n");
}

#[test]
fn encode_escapes_quotes_and_backslashes() {
    let account = BaseAccount {
        address: "a\"b\\c".to_string(),
        pub_key: None,
        account_number: 1,
        sequence: 2,
    };
    let text = account.to_json();
    assert!(text.contains("\"address\":\"a\\\"b\\\\c\""));
    // The output is well-formed JSON and decodes to the same record.
    let value: serde_json::Value = serde_json::from_str(&text).unwrap();
    assert_eq!(value.get("address").and_then(|v| v.as_str()), Some("a\"b\\c"));
    let back = BaseAccount::from_json(&text).unwrap();
    assert_eq!(back, account);
}

#[test]
fn duplicate_member_fails_invalid_json() {
    let text = "{\"@type\":\"/x\",\"account_number\":\"1\",\"account_number\":\"2\",\"address\":\"a\",\"sequence\":\"2\"}";
    assert_eq!(BaseAccount::from_json(text), Err(DecodeError::InvalidJson));
}

#[test]
fn unknown_member_fails_invalid_json() {
    let text = "{\"@type\":\"/x\",\"account_number\":\"1\",\"address\":\"a\",\"extra\":\"x\",\"sequence\":\"2\"}";
    assert_eq!(BaseAccount::from_json(text), Err(DecodeError::InvalidJson));
}

#[test]
fn malformed_pub_key_object_fails_invalid_json() {
    let text = "{\"@type\":\"/cosmos.auth.v1beta1.BaseAccount\",\"account_number\":\"1\",\"address\":\"a\",\"pub_key\":{\"bad\":1},\"sequence\":\"2\"}";
    assert_eq!(BaseAccount::from_json(text), Err(DecodeError::InvalidJson));
}

#[test]
fn wire_shape_carries_the_fixed_tag() {
    let account = sample_account(None);
    let wire = BaseAccountJson::from_account(&account);
    assert_eq!(wire.type_url, BaseAccount::TYPE_URL);
    assert_eq!(wire.account_number, account.account_number);
    assert_eq!(wire.sequence, account.sequence);
    assert_eq!(wire.address, account.address);
    assert_eq!(wire.render(), account.to_json());
}

#[test]
fn wire_shape_converts_back() {
    let account = sample_account(None);
    let wire = BaseAccountJson::from_account(&account);
    let back = BaseAccount::try_from(&wire).unwrap();
    assert_eq!(back, account);
    let back_owned = BaseAccount::try_from(wire).unwrap();
    assert_eq!(back_owned, account);
}

#[test]
fn query_envelopes_carry_plain_data() {
    let request = account_codec::QueryAccountRequest {
        address: "terra1eml7g3ll6jkyhtfv2g0gvqnzzpy6kjyd7qr302".to_string(),
    };
    let response = account_codec::QueryAccountResponse {
        account: Some(sample_account(None)),
    };
    assert_eq!(request.address, response.account.unwrap().address);
    let empty = account_codec::QueryAccountResponse { account: None };
    assert!(empty.account.is_none());
}

#[test]
fn rendered_text_is_well_formed_json() {
    let account = EXAMPLE_JSON.parse::<BaseAccount>().unwrap();
    let value: serde_json::Value = serde_json::from_str(&account.to_json()).unwrap();
    assert_eq!(
        value.get("@type").and_then(|v| v.as_str()),
        Some("/cosmos.auth.v1beta1.BaseAccount")
    );
    assert_eq!(
        value.get("account_number").and_then(|v| v.as_str()),
        Some("2932070")
    );
    assert_eq!(value.get("sequence").and_then(|v| v.as_str()), Some("6"));
    assert_eq!(
        value.get("pub_key").and_then(|v| v.get("key")).and_then(|v| v.as_str()),
        Some("AurYLJpdpq9l3T48uq7+5TrG7ngFa+mq96SNdDVyaIwC")
    );
}
