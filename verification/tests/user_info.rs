use cas_relay::user_info::{
    normalize_user_info, user_info_response, UserInfoAttributes, UserInfoData, UserInfoDataAny,
    UserInfoEnvelope, UserInfoRaw, UserInfoReply, UserInfoResponse,
};

fn flat() -> UserInfoData {
    UserInfoData {
        username: "u1".to_string(),
        user_name: "Alice".to_string(),
        user_uid: "uid".to_string(),
        user_id: "id".to_string(),
        organization_name: Some("Org".to_string()),
        identity_type_name: None,
    }
}

fn attributes() -> UserInfoAttributes {
    UserInfoAttributes {
        organization_id: Some("o1".to_string()),
        identity_type_code: None,
        account_id: None,
        organization_name: Some("Org".to_string()),
        organization_code: None,
        image_url: None,
        identity_type_name: Some("Student".to_string()),
        identity_type_id: None,
        user_name: Some("Alice".to_string()),
        user_id: None,
        user_uid: Some("uid".to_string()),
    }
}

fn raw(code: i32, message: Option<&str>, data: Option<UserInfoDataAny>) -> UserInfoRaw {
    UserInfoRaw { acknowleged: None, code, message: message.map(|m| m.to_string()), data }
}

#[test]
fn flat_profile_stays_as_it_is() {
    assert_eq!(normalize_user_info(UserInfoDataAny::Flat(flat())), flat());
}

#[test]
fn nested_profile_is_flattened() {
    let env = UserInfoEnvelope {
        username: "u1".to_string(),
        roles: Some(vec!["r".to_string()]),
        attributes: Some(attributes()),
    };
    assert_eq!(
        normalize_user_info(UserInfoDataAny::Envelope(env)),
        UserInfoData {
            username: "u1".to_string(),
            user_name: "Alice".to_string(),
            user_uid: "uid".to_string(),
            user_id: String::new(),
            organization_name: Some("Org".to_string()),
            identity_type_name: Some("Student".to_string()),
        }
    );
}

#[test]
fn nested_profile_without_attributes_has_empty_fields() {
    let env = UserInfoEnvelope { username: "u1".to_string(), roles: None, attributes: None };
    assert_eq!(
        normalize_user_info(UserInfoDataAny::Envelope(env)),
        UserInfoData {
            username: "u1".to_string(),
            user_name: String::new(),
            user_uid: String::new(),
            user_id: String::new(),
            organization_name: None,
            identity_type_name: None,
        }
    );
}

#[test]
fn answer_with_code_zero_succeeds() {
    let r = user_info_response(UserInfoReply::Parsed(raw(
        0,
        Some("ignored"),
        Some(UserInfoDataAny::Flat(flat())),
    )));
    assert_eq!(
        r,
        UserInfoResponse { success: true, data: Some(flat()), message: "获取成功".to_string() }
    );
    let r = user_info_response(UserInfoReply::Parsed(raw(0, None, None)));
    assert_eq!(r, UserInfoResponse { success: true, data: None, message: "获取成功".to_string() });
}

#[test]
fn answer_with_another_code_fails_with_its_message() {
    let r = user_info_response(UserInfoReply::Parsed(raw(
        401,
        Some("token expired"),
        Some(UserInfoDataAny::Flat(flat())),
    )));
    assert_eq!(
        r,
        UserInfoResponse { success: false, data: None, message: "token expired".to_string() }
    );
    let r = user_info_response(UserInfoReply::Parsed(raw(-1, None, None)));
    assert_eq!(r, UserInfoResponse { success: false, data: None, message: "未知错误".to_string() });
}

#[test]
fn unreadable_answer_names_where_it_was_kept() {
    let r = user_info_response(UserInfoReply::Unreadable { saved_to: "/tmp/x.txt".to_string() });
    assert_eq!(
        r,
        UserInfoResponse {
            success: false,
            data: None,
            message: "解析响应失败，已保存响应到：/tmp/x.txt".to_string()
        }
    );
}

#[test]
fn refused_request_names_the_status() {
    let r = user_info_response(UserInfoReply::Refused { status: "403 Forbidden".to_string() });
    assert_eq!(
        r,
        UserInfoResponse { success: false, data: None, message: "请求失败: 403 Forbidden".to_string() }
    );
}
