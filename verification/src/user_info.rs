//! The profile of the signed-in user, brought into one shape.
//!
//! The portal answers the profile request in one of two layouts: the fields
//! of the profile side by side, or the user name beside a record of
//! attributes. Both are turned into the first.

use vstd::prelude::*;

verus! {

/// The profile of a user.
#[derive(Clone, Debug, PartialEq, Eq)]
pub struct UserInfoData {
    pub username: String,
    pub user_name: String,
    pub user_uid: String,
    pub user_id: String,
    pub organization_name: Option<String>,
    pub identity_type_name: Option<String>,
}

/// The answer to a request for the profile.
#[derive(Clone, Debug, PartialEq, Eq)]
pub struct UserInfoResponse {
    pub success: bool,
    pub data: Option<UserInfoData>,
    pub message: String,
}

/// The attributes of a user in the nested layout.
#[derive(Clone, Debug, PartialEq, Eq)]
pub struct UserInfoAttributes {
    pub organization_id: Option<String>,
    pub identity_type_code: Option<String>,
    pub account_id: Option<String>,
    pub organization_name: Option<String>,
    pub organization_code: Option<String>,
    pub image_url: Option<String>,
    pub identity_type_name: Option<String>,
    pub identity_type_id: Option<String>,
    pub user_name: Option<String>,
    pub user_id: Option<String>,
    pub user_uid: Option<String>,
}

/// The nested layout: the user name beside the attributes.
#[derive(Clone, Debug, PartialEq, Eq)]
pub struct UserInfoEnvelope {
    pub username: String,
    pub roles: Option<Vec<String>>,
    pub attributes: Option<UserInfoAttributes>,
}

/// A profile in either layout.
#[derive(Clone, Debug, PartialEq, Eq)]
pub enum UserInfoDataAny {
    /// The fields side by side.
    Flat(UserInfoData),
    /// The user name beside a record of attributes.
    Envelope(UserInfoEnvelope),
}

/// The body of the portal's answer.
#[derive(Clone, Debug, PartialEq, Eq)]
pub struct UserInfoRaw {
    pub acknowleged: Option<bool>,
    pub code: i32,
    pub message: Option<String>,
    pub data: Option<UserInfoDataAny>,
}

/// What became of the profile request.
#[derive(Clone, Debug, PartialEq, Eq)]
pub enum UserInfoReply {
    /// The portal answered with a success status and a body that could be read.
    Parsed(UserInfoRaw),
    /// The portal answered with a success status and a body that could not
    /// be read; `saved_to` says where the body was kept.
    Unreadable { saved_to: String },
    /// The portal answered with another status.
    Refused { status: String },
}

/// A profile as texts.
pub struct Profile {
    pub username: Seq<char>,
    pub user_name: Seq<char>,
    pub user_uid: Seq<char>,
    pub user_id: Seq<char>,
    pub organization_name: Option<Seq<char>>,
    pub identity_type_name: Option<Seq<char>>,
}

/// An optional text.
pub open spec fn text_of(s: Option<String>) -> Option<Seq<char>> {
    match s {
        Some(t) => Some(t@),
        None => None,
    }
}

/// An optional text, empty when it is missing.
pub open spec fn text_or_empty(s: Option<String>) -> Seq<char> {
    match s {
        Some(t) => t@,
        None => Seq::empty(),
    }
}

impl View for UserInfoData {
    type V = Profile;

    open spec fn view(&self) -> Profile {
        Profile {
            username: self.username@,
            user_name: self.user_name@,
            user_uid: self.user_uid@,
            user_id: self.user_id@,
            organization_name: text_of(self.organization_name),
            identity_type_name: text_of(self.identity_type_name),
        }
    }
}

/// The profile that an answer in either layout describes. In the nested
/// layout a missing name, uid or id is the empty text, and missing
/// attributes are a record without any.
pub open spec fn normalized(data: UserInfoDataAny) -> Profile {
    match data {
        UserInfoDataAny::Flat(d) => d@,
        UserInfoDataAny::Envelope(env) => match env.attributes {
            Some(attrs) => Profile {
                username: env.username@,
                user_name: text_or_empty(attrs.user_name),
                user_uid: text_or_empty(attrs.user_uid),
                user_id: text_or_empty(attrs.user_id),
                organization_name: text_of(attrs.organization_name),
                identity_type_name: text_of(attrs.identity_type_name),
            },
            None => Profile {
                username: env.username@,
                user_name: Seq::empty(),
                user_uid: Seq::empty(),
                user_id: Seq::empty(),
                organization_name: None,
                identity_type_name: None,
            },
        },
    }
}

/// The profile of an optional answer.
pub open spec fn normalized_data(data: Option<UserInfoDataAny>) -> Option<Profile> {
    match data {
        Some(d) => Some(normalized(d)),
        None => None,
    }
}

/// The profile in a response.
pub open spec fn profile_of(data: Option<UserInfoData>) -> Option<Profile> {
    match data {
        Some(d) => Some(d@),
        None => None,
    }
}

/// The text, or the empty text where there is none.
fn or_empty(s: Option<String>) -> (r: String)
    ensures
        r@ == text_or_empty(s),
{
    match s {
        Some(t) => t,
        None => String::new(),
    }
}

/// Brings a profile in either layout into the flat one.
pub fn normalize_user_info(data: UserInfoDataAny) -> (r: UserInfoData)
    ensures
        r@ == normalized(data),
{
    match data {
        UserInfoDataAny::Flat(d) => d,
        UserInfoDataAny::Envelope(env) => match env.attributes {
            Some(attrs) => UserInfoData {
                username: env.username,
                user_name: or_empty(attrs.user_name),
                user_uid: or_empty(attrs.user_uid),
                user_id: or_empty(attrs.user_id),
                organization_name: attrs.organization_name,
                identity_type_name: attrs.identity_type_name,
            },
            None => UserInfoData {
                username: env.username,
                user_name: String::new(),
                user_uid: String::new(),
                user_id: String::new(),
                organization_name: None,
                identity_type_name: None,
            },
        },
    }
}

/// The message of a response to `reply`.
pub open spec fn user_info_message(reply: UserInfoReply) -> Seq<char> {
    match reply {
        UserInfoReply::Parsed(raw) => if raw.code == 0 {
            "获取成功"@
        } else {
            match raw.message {
                Some(m) => m@,
                None => "未知错误"@,
            }
        },
        UserInfoReply::Unreadable { saved_to } => "解析响应失败，已保存响应到："@ + saved_to@,
        UserInfoReply::Refused { status } => "请求失败: "@ + status@,
    }
}

/// The response to a profile request.
///
/// It succeeds exactly when the portal's answer could be read and carries
/// the code 0; its data is then the profile of the answer, if the answer
/// holds one. Every other response carries no data.
pub fn user_info_response(reply: UserInfoReply) -> (r: UserInfoResponse)
    ensures
        r.success == (reply matches UserInfoReply::Parsed(raw) && raw.code == 0),
        r.message@ == user_info_message(reply),
        profile_of(r.data) == match reply {
            UserInfoReply::Parsed(raw) => if raw.code == 0 {
                normalized_data(raw.data)
            } else {
                None
            },
            _ => None,
        },
{
    match reply {
        UserInfoReply::Parsed(raw) => {
            if raw.code == 0 {
                let data = match raw.data {
                    Some(d) => Some(normalize_user_info(d)),
                    None => None,
                };
                UserInfoResponse { success: true, data, message: "获取成功".to_owned() }
            } else {
                let message = match raw.message {
                    Some(m) => m,
                    None => "未知错误".to_owned(),
                };
                UserInfoResponse { success: false, data: None, message }
            }
        },
        UserInfoReply::Unreadable { saved_to } => {
            let mut message = "解析响应失败，已保存响应到：".to_owned();
            message.append(saved_to.as_str());
            UserInfoResponse { success: false, data: None, message }
        },
        UserInfoReply::Refused { status } => {
            let mut message = "请求失败: ".to_owned();
            message.append(status.as_str());
            UserInfoResponse { success: false, data: None, message }
        },
    }
}

} // verus!
