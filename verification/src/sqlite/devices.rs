//! Device authorizations.

use vstd::prelude::*;

use crate::encoding;
use crate::encoding::hash_code;
use crate::model;
use crate::model::{CreateDeviceAuthorizationInput, CreateDeviceAuthorizationInputView};
use crate::sqlite;
use crate::sqlite::{none_if_empty, or_empty, or_zero};
use crate::text;
use crate::text::cat3;
use crate::time;
use crate::time::ttl_seconds;

verus! {

/// What a device authorization is made of.
#[derive(Debug, PartialEq, Eq)]
pub struct CreateDeviceAuthorizationParams {
    pub device_code_hash: String,
    pub user_code_hash: String,
    pub requested_remote_url: String,
    pub requested_repository_id: String,
    pub ttl_seconds: i64,
}

/// The view of [`CreateDeviceAuthorizationParams`].
#[verifier::ext_equal]
pub struct CreateDeviceAuthorizationParamsView {
    pub device_code_hash: Seq<char>,
    pub user_code_hash: Seq<char>,
    pub requested_remote_url: Seq<char>,
    pub requested_repository_id: Seq<char>,
    pub ttl_seconds: i64,
}

impl View for CreateDeviceAuthorizationParams {
    type V = CreateDeviceAuthorizationParamsView;

    open spec fn view(&self) -> CreateDeviceAuthorizationParamsView {
        CreateDeviceAuthorizationParamsView {
            device_code_hash: self.device_code_hash@,
            user_code_hash: self.user_code_hash@,
            requested_remote_url: self.requested_remote_url@,
            requested_repository_id: self.requested_repository_id@,
            ttl_seconds: self.ttl_seconds,
        }
    }
}

impl Clone for CreateDeviceAuthorizationParams {
    fn clone(&self) -> (r: Self)
        ensures
            r@ == self@,
    {
        CreateDeviceAuthorizationParams {
            device_code_hash: self.device_code_hash.clone(),
            user_code_hash: self.user_code_hash.clone(),
            requested_remote_url: self.requested_remote_url.clone(),
            requested_repository_id: self.requested_repository_id.clone(),
            ttl_seconds: self.ttl_seconds,
        }
    }
}

impl CreateDeviceAuthorizationParams {
    /// The view of the default value: every field empty.
    pub open spec fn blank() -> CreateDeviceAuthorizationParamsView {
        CreateDeviceAuthorizationParamsView {
            device_code_hash: Seq::empty(),
            user_code_hash: Seq::empty(),
            requested_remote_url: Seq::empty(),
            requested_repository_id: Seq::empty(),
            ttl_seconds: 0,
        }
    }
}

impl Default for CreateDeviceAuthorizationParams {
    fn default() -> (r: Self)
        ensures
            r@ == Self::blank(),
    {
        CreateDeviceAuthorizationParams {
            device_code_hash: String::new(),
            user_code_hash: String::new(),
            requested_remote_url: String::new(),
            requested_repository_id: String::new(),
            ttl_seconds: 0,
        }
    }
}

/// A device authorization as it is stored.
#[derive(Debug, PartialEq, Eq)]
pub struct DeviceAuthorization {
    pub id: String,
    pub device_code_hash: String,
    pub user_code_hash: String,
    pub requested_remote_url: String,
    pub requested_repository_id: String,
    pub approved_user_id: String,
    pub status: String,
    pub created_at: i64,
    pub expires_at: i64,
    pub approved_at: i64,
    pub consumed_at: i64,
}

/// The view of [`DeviceAuthorization`].
#[verifier::ext_equal]
pub struct DeviceAuthorizationView {
    pub id: Seq<char>,
    pub device_code_hash: Seq<char>,
    pub user_code_hash: Seq<char>,
    pub requested_remote_url: Seq<char>,
    pub requested_repository_id: Seq<char>,
    pub approved_user_id: Seq<char>,
    pub status: Seq<char>,
    pub created_at: i64,
    pub expires_at: i64,
    pub approved_at: i64,
    pub consumed_at: i64,
}

impl View for DeviceAuthorization {
    type V = DeviceAuthorizationView;

    open spec fn view(&self) -> DeviceAuthorizationView {
        DeviceAuthorizationView {
            id: self.id@,
            device_code_hash: self.device_code_hash@,
            user_code_hash: self.user_code_hash@,
            requested_remote_url: self.requested_remote_url@,
            requested_repository_id: self.requested_repository_id@,
            approved_user_id: self.approved_user_id@,
            status: self.status@,
            created_at: self.created_at,
            expires_at: self.expires_at,
            approved_at: self.approved_at,
            consumed_at: self.consumed_at,
        }
    }
}

impl Clone for DeviceAuthorization {
    fn clone(&self) -> (r: Self)
        ensures
            r@ == self@,
    {
        DeviceAuthorization {
            id: self.id.clone(),
            device_code_hash: self.device_code_hash.clone(),
            user_code_hash: self.user_code_hash.clone(),
            requested_remote_url: self.requested_remote_url.clone(),
            requested_repository_id: self.requested_repository_id.clone(),
            approved_user_id: self.approved_user_id.clone(),
            status: self.status.clone(),
            created_at: self.created_at,
            expires_at: self.expires_at,
            approved_at: self.approved_at,
            consumed_at: self.consumed_at,
        }
    }
}

impl DeviceAuthorization {
    /// The view of the default value: every field empty.
    pub open spec fn blank() -> DeviceAuthorizationView {
        DeviceAuthorizationView {
            id: Seq::empty(),
            device_code_hash: Seq::empty(),
            user_code_hash: Seq::empty(),
            requested_remote_url: Seq::empty(),
            requested_repository_id: Seq::empty(),
            approved_user_id: Seq::empty(),
            status: Seq::empty(),
            created_at: 0,
            expires_at: 0,
            approved_at: 0,
            consumed_at: 0,
        }
    }
}

impl Default for DeviceAuthorization {
    fn default() -> (r: Self)
        ensures
            r@ == Self::blank(),
    {
        DeviceAuthorization {
            id: String::new(),
            device_code_hash: String::new(),
            user_code_hash: String::new(),
            requested_remote_url: String::new(),
            requested_repository_id: String::new(),
            approved_user_id: String::new(),
            status: String::new(),
            created_at: 0,
            expires_at: 0,
            approved_at: 0,
            consumed_at: 0,
        }
    }
}

/// A new device authorization.
pub open spec fn device_of(
    input: CreateDeviceAuthorizationParamsView,
    id: Seq<char>,
    now: i64,
) -> DeviceAuthorizationView {
    DeviceAuthorizationView {
        id,
        device_code_hash: input.device_code_hash,
        user_code_hash: input.user_code_hash,
        requested_remote_url: input.requested_remote_url,
        requested_repository_id: input.requested_repository_id,
        approved_user_id: Seq::empty(),
        status: "pending"@,
        created_at: now,
        expires_at: (now + input.ttl_seconds) as i64,
        approved_at: 0,
        consumed_at: 0,
    }
}

/// A new device authorization under this identifier, at the time `now`.
pub fn new_device_at(input: CreateDeviceAuthorizationParams, id: String, now: i64) -> (r:
    DeviceAuthorization)
    requires
        i64::MIN <= now + input.ttl_seconds <= i64::MAX,
    ensures
        r@ == device_of(input@, id@, now),
{
    let device = DeviceAuthorization {
        id,
        device_code_hash: input.device_code_hash,
        user_code_hash: input.user_code_hash,
        requested_remote_url: input.requested_remote_url,
        requested_repository_id: input.requested_repository_id,
        approved_user_id: String::new(),
        status: "pending".to_owned(),
        created_at: now,
        expires_at: now + input.ttl_seconds,
        approved_at: 0,
        consumed_at: 0,
    };
    assert(device@ =~= device_of(input@, id@, now));
    device
}

/// What a device authorization is made of, with its codes hashed.
pub open spec fn params_of(input: CreateDeviceAuthorizationInputView) ->
    CreateDeviceAuthorizationParamsView {
    CreateDeviceAuthorizationParamsView {
        device_code_hash: encoding::code_hash(input.device_code),
        user_code_hash: encoding::code_hash(input.user_code),
        requested_remote_url: input.requested_remote_url,
        requested_repository_id: input.requested_repository_id,
        ttl_seconds: time::whole_seconds(input.ttl),
    }
}

/// What a device authorization is made of, with its codes hashed.
pub fn device_params(input: CreateDeviceAuthorizationInput) -> (r: CreateDeviceAuthorizationParams)
    ensures
        r@ == params_of(input@),
        r.ttl_seconds >= 0,
{
    CreateDeviceAuthorizationParams {
        device_code_hash: hash_code(input.device_code.as_str()),
        user_code_hash: hash_code(input.user_code.as_str()),
        requested_remote_url: input.requested_remote_url,
        requested_repository_id: input.requested_repository_id,
        ttl_seconds: ttl_seconds(input.ttl),
    }
}

/// The repository that is stored with a device authorization, if any.
pub fn stored_repository(device: &DeviceAuthorization) -> (r: Option<String>)
    ensures
        text::opt_text(r) == sqlite::stored(device@.requested_repository_id),
{
    none_if_empty(device.requested_repository_id.as_str())
}

/// A device authorization with what may be missing in the database filled in.
pub fn device_from_row(
    device: DeviceAuthorization,
    requested_repository_id: Option<String>,
    approved_user_id: Option<String>,
    approved_at: Option<i64>,
    consumed_at: Option<i64>,
) -> (r: DeviceAuthorization)
    ensures
        r@ == (DeviceAuthorizationView {
            requested_repository_id: sqlite::read_back(text::opt_text(requested_repository_id)),
            approved_user_id: sqlite::read_back(text::opt_text(approved_user_id)),
            approved_at: match approved_at {
                Some(t) => t,
                None => 0,
            },
            consumed_at: match consumed_at {
                Some(t) => t,
                None => 0,
            },
            ..device@
        }),
{
    DeviceAuthorization {
        id: device.id,
        device_code_hash: device.device_code_hash,
        user_code_hash: device.user_code_hash,
        requested_remote_url: device.requested_remote_url,
        requested_repository_id: or_empty(requested_repository_id),
        approved_user_id: or_empty(approved_user_id),
        status: device.status,
        created_at: device.created_at,
        expires_at: device.expires_at,
        approved_at: or_zero(approved_at),
        consumed_at: or_zero(consumed_at),
    }
}

/// A device authorization without the hashes of its codes.
pub open spec fn core_of(device: DeviceAuthorizationView) -> model::DeviceAuthorizationView {
    model::DeviceAuthorizationView {
        id: device.id,
        requested_remote_url: device.requested_remote_url,
        requested_repository_id: device.requested_repository_id,
        approved_user_id: device.approved_user_id,
        status: device.status,
        created_at: device.created_at,
        expires_at: device.expires_at,
        approved_at: device.approved_at,
        consumed_at: device.consumed_at,
    }
}

/// A device authorization without the hashes of its codes.
pub fn device_to_core(device: DeviceAuthorization) -> (r: model::DeviceAuthorization)
    ensures
        r@ == core_of(device@),
{
    model::DeviceAuthorization {
        id: device.id,
        requested_remote_url: device.requested_remote_url,
        requested_repository_id: device.requested_repository_id,
        approved_user_id: device.approved_user_id,
        status: device.status,
        created_at: device.created_at,
        expires_at: device.expires_at,
        approved_at: device.approved_at,
        consumed_at: device.consumed_at,
    }
}

/// The query for the device authorization with a value in a column.
pub fn device_select_sql(clause: &str) -> (r: String)
    ensures
        r@ == "SELECT id, device_code_hash, user_code_hash, requested_remote_url, requested_repository_id, approved_user_id, status, created_at, expires_at, approved_at, consumed_at FROM device_authorizations WHERE "@
            + clause@ + " = ?1"@,
{
    cat3(
        "SELECT id, device_code_hash, user_code_hash, requested_remote_url, requested_repository_id, approved_user_id, status, created_at, expires_at, approved_at, consumed_at FROM device_authorizations WHERE ",
        clause,
        " = ?1",
    )
}

/// A device authorization is found by either of its codes, however they are
/// typed: the case and the whitespace around do not matter.
pub proof fn law_device_is_found_however_its_code_is_typed(
    input: CreateDeviceAuthorizationInputView,
    id: Seq<char>,
    now: i64,
    typed: Seq<char>,
)
    ensures
        text::upper(text::trimmed(typed)) == text::upper(text::trimmed(input.user_code))
            ==> encoding::code_hash(typed) == device_of(params_of(input), id, now).user_code_hash,
        text::upper(text::trimmed(typed)) == text::upper(text::trimmed(input.device_code))
            ==> encoding::code_hash(typed) == device_of(params_of(input), id, now).device_code_hash,
{
}

} // verus!
