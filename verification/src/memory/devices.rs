//! Devices that wait for a user to approve them.

use vstd::prelude::*;

use crate::encoding;
use crate::encoding::hash_code;
use crate::error;
use crate::error::{invalid, CoreError, CoreErrorView};
use crate::ids;
use crate::ids::new_id;
use crate::memory::{Store, StoreView};
use crate::model::{
    CreateDeviceAuthorizationInput, CreateDeviceAuthorizationInputView, DeviceAuthorization,
    DeviceAuthorizationView,
};
use crate::text;
use crate::text::{is_blank, same};
use crate::time;
use crate::time::{later, now_unix, ttl_seconds};

verus! {

/// Why a device cannot wait for approval; none where it can.
pub open spec fn device_refusal(input: CreateDeviceAuthorizationInputView) -> Option<CoreErrorView> {
    if text::trimmed(input.device_code).len() == 0 || text::trimmed(input.user_code).len() == 0
        || text::trimmed(input.requested_repository_id).len() == 0 {
        Some(
            CoreErrorView::InvalidArgument(
                "device_code, user_code, and requested_repository_id are required"@,
            ),
        )
    } else {
        None
    }
}

/// The device that is made of an input at the time `now`.
pub open spec fn new_device(
    input: CreateDeviceAuthorizationInputView,
    now: i64,
    id: Seq<char>,
) -> DeviceAuthorizationView {
    DeviceAuthorizationView {
        id,
        requested_remote_url: input.requested_remote_url,
        requested_repository_id: input.requested_repository_id,
        approved_user_id: Seq::empty(),
        status: "pending"@,
        created_at: now,
        expires_at: time::time_after(now, time::whole_seconds(input.ttl)),
        approved_at: 0,
        consumed_at: 0,
    }
}

/// Whether a device can be approved at the time `now`.
pub open spec fn can_approve(device: DeviceAuthorizationView, now: i64) -> bool {
    device.status == "pending"@ && device.expires_at > now
}

/// A device once a user has approved it.
pub open spec fn approved(
    device: DeviceAuthorizationView,
    user_id: Seq<char>,
    now: i64,
) -> DeviceAuthorizationView {
    DeviceAuthorizationView {
        status: "approved"@,
        approved_user_id: user_id,
        approved_at: now,
        ..device
    }
}

/// A device once its approval was used.
pub open spec fn consumed(device: DeviceAuthorizationView, now: i64) -> DeviceAuthorizationView {
    DeviceAuthorizationView { status: "consumed"@, consumed_at: now, ..device }
}

/// A device once it has waited too long.
pub open spec fn expired(device: DeviceAuthorizationView) -> DeviceAuthorizationView {
    DeviceAuthorizationView { status: "expired"@, ..device }
}

impl StoreView {
    /// The store with a device changed.
    pub open spec fn with_device(self, k: Seq<char>, device: DeviceAuthorizationView) -> StoreView {
        StoreView { device_authorizations: self.device_authorizations.insert(k, device), ..self }
    }

    /// The store with one more device, to be found by its two codes.
    pub open spec fn with_new_device(
        self,
        input: CreateDeviceAuthorizationInputView,
        device: DeviceAuthorizationView,
    ) -> StoreView {
        StoreView {
            device_authorizations: self.device_authorizations.insert(device.id, device),
            device_code_index: self.device_code_index.insert(
                encoding::code_hash(input.device_code),
                device.id,
            ),
            user_code_index: self.user_code_index.insert(
                encoding::code_hash(input.user_code),
                device.id,
            ),
            ..self
        }
    }

    /// The device that an index gives for a code.
    pub open spec fn device_by(self, index: Map<Seq<char>, Seq<char>>, code: Seq<char>) -> Result<
        DeviceAuthorizationView,
        CoreErrorView,
    > {
        let hash = encoding::code_hash(code);
        if index.contains_key(hash) && self.device_authorizations.contains_key(index[hash]) {
            Ok(self.device_authorizations[index[hash]])
        } else {
            Err(CoreErrorView::NotFound)
        }
    }

    /// Whether the device `id` can be approved at the time `now`.
    pub open spec fn approvable(self, id: Seq<char>, now: i64) -> bool {
        self.device_authorizations.contains_key(id) && can_approve(
            self.device_authorizations[id],
            now,
        )
    }

    /// Whether the device `id` was approved and the approval was not used.
    pub open spec fn consumable(self, id: Seq<char>) -> bool {
        self.device_authorizations.contains_key(id) && self.device_authorizations[id].status
            == "approved"@
    }

    /// The store once the device `id` was approved.
    pub open spec fn after_approval(self, id: Seq<char>, user_id: Seq<char>, now: i64) -> StoreView {
        self.with_device(id, approved(self.device_authorizations[id], user_id, now))
    }

    /// The store once the approval of the device `id` was used.
    pub open spec fn after_consumption(self, id: Seq<char>, now: i64) -> StoreView {
        self.with_device(id, consumed(self.device_authorizations[id], now))
    }

    /// The store once the device `id` has waited too long.
    pub open spec fn after_expiry(self, id: Seq<char>) -> StoreView {
        if self.device_authorizations.contains_key(id) && self.device_authorizations[id].status
            == "pending"@ {
            self.with_device(id, expired(self.device_authorizations[id]))
        } else {
            self
        }
    }
}

impl Store {
    fn put_device(&mut self, id: &str, device: DeviceAuthorization)
        requires
            old(self).wf(),
        ensures
            final(self).wf(),
            final(self)@ == old(self)@.with_device(id@, device@),
    {
        let ghost before = self@;
        let ghost view = device@;
        self.device_authorizations.insert(id.to_owned(), device);
        assert(self@ =~= before.with_device(id@, view));
    }

    /// Lets a device wait for approval from the time `now` on, under the identifier `id`.
    pub fn create_device_authorization_at(
        &mut self,
        input: CreateDeviceAuthorizationInput,
        now: i64,
        id: String,
    ) -> (r: Result<DeviceAuthorization, CoreError>)
        requires
            old(self).wf(),
            now >= 0,
        ensures
            final(self).wf(),
            match r {
                Ok(device) => device_refusal(input@) is None && device@ == new_device(
                    input@,
                    now,
                    id@,
                ) && final(self)@ == old(self)@.with_new_device(input@, device@),
                Err(e) => device_refusal(input@) == Some(e@) && final(self)@ == old(self)@,
            },
    {
        if is_blank(input.device_code.as_str()) || is_blank(input.user_code.as_str()) || is_blank(
            input.requested_repository_id.as_str(),
        ) {
            return Err(
                invalid("device_code, user_code, and requested_repository_id are required"),
            );
        }
        let ghost before = self@;
        let ghost given = input@;
        let device = DeviceAuthorization {
            id: id.clone(),
            requested_remote_url: input.requested_remote_url,
            requested_repository_id: input.requested_repository_id,
            approved_user_id: String::new(),
            status: "pending".to_owned(),
            created_at: now,
            expires_at: later(now, ttl_seconds(input.ttl)),
            approved_at: 0,
            consumed_at: 0,
        };
        assert(device@ =~= new_device(given, now, id@));
        let device_code = hash_code(input.device_code.as_str());
        let user_code = hash_code(input.user_code.as_str());
        self.device_code_index.insert(device_code, id.clone());
        self.user_code_index.insert(user_code, id.clone());
        self.device_authorizations.insert(id, device.clone());
        assert(self@ =~= before.with_new_device(given, device@));
        Ok(device)
    }

    /// Lets a device wait for approval.
    pub fn create_device_authorization(&mut self, input: CreateDeviceAuthorizationInput) -> (r:
        Result<DeviceAuthorization, CoreError>)
        requires
            old(self).wf(),
        ensures
            final(self).wf(),
            match r {
                Ok(device) => device_refusal(input@) is None && ids::is_uuid(device@.id)
                    && device@.created_at >= 0 && device@ == new_device(
                    input@,
                    device@.created_at,
                    device@.id,
                ) && final(self)@ == old(self)@.with_new_device(input@, device@),
                Err(e) => device_refusal(input@) == Some(e@) && final(self)@ == old(self)@,
            },
    {
        let now: i64 = now_unix();
        let id = new_id();
        self.create_device_authorization_at(input, now, id)
    }

    /// The device with a user code.
    pub fn device_by_user_code(&self, user_code: &str) -> (r: Result<
        DeviceAuthorization,
        CoreError,
    >)
        requires
            self.wf(),
        ensures
            error::outcome(r) == self@.device_by(self@.user_code_index, user_code@),
    {
        match self.user_code_index.get(&hash_code(user_code)) {
            Some(id) => match self.device_authorizations.get(id) {
                Some(device) => Ok(device.clone()),
                None => Err(CoreError::NotFound),
            },
            None => Err(CoreError::NotFound),
        }
    }

    /// The device with a device code.
    pub fn device_by_device_code(&self, device_code: &str) -> (r: Result<
        DeviceAuthorization,
        CoreError,
    >)
        requires
            self.wf(),
        ensures
            error::outcome(r) == self@.device_by(self@.device_code_index, device_code@),
    {
        match self.device_code_index.get(&hash_code(device_code)) {
            Some(id) => match self.device_authorizations.get(id) {
                Some(device) => Ok(device.clone()),
                None => Err(CoreError::NotFound),
            },
            None => Err(CoreError::NotFound),
        }
    }

    /// Approves a device at the time `now`.
    pub fn approve_device_authorization_at(&mut self, id: &str, user_id: &str, now: i64) -> (r:
        Result<(), CoreError>)
        requires
            old(self).wf(),
        ensures
            final(self).wf(),
            match r {
                Ok(_) => old(self)@.approvable(id@, now) && final(self)@
                    == old(self)@.after_approval(id@, user_id@, now),
                Err(e) => e@ == CoreErrorView::NotFound && !old(self)@.approvable(id@, now)
                    && final(self)@ == old(self)@,
            },
    {
        let mut device = match self.device_authorizations.get(&id.to_owned()) {
            Some(device) => device.clone(),
            None => {
                return Err(CoreError::NotFound);
            },
        };
        if !same(device.status.as_str(), "pending") || device.expires_at <= now {
            return Err(CoreError::NotFound);
        }
        device.status = "approved".to_owned();
        device.approved_user_id = user_id.to_owned();
        device.approved_at = now;
        self.put_device(id, device);
        Ok(())
    }

    /// Approves a device.
    pub fn approve_device_authorization(&mut self, id: &str, user_id: &str) -> (r: Result<
        (),
        CoreError,
    >)
        requires
            old(self).wf(),
        ensures
            final(self).wf(),
            exists|now: i64|
                {
                    &&& now >= 0
                    &&& match r {
                        Ok(_) => #[trigger] old(self)@.approvable(id@, now) && final(self)@
                            == old(self)@.after_approval(id@, user_id@, now),
                        Err(e) => e@ == CoreErrorView::NotFound && !old(self)@.approvable(id@, now)
                            && final(self)@ == old(self)@,
                    }
                },
    {
        let now: i64 = now_unix();
        let r = self.approve_device_authorization_at(id, user_id, now);
        assert(old(self)@.approvable(id@, now) == (r is Ok));
        r
    }

    /// Uses the approval of a device at the time `now`.
    pub fn consume_device_authorization_at(&mut self, id: &str, now: i64) -> (r: Result<
        (),
        CoreError,
    >)
        requires
            old(self).wf(),
        ensures
            final(self).wf(),
            match r {
                Ok(_) => old(self)@.consumable(id@) && final(self)@ == old(self)@.after_consumption(
                    id@,
                    now,
                ),
                Err(e) => e@ == CoreErrorView::NotFound && !old(self)@.consumable(id@)
                    && final(self)@ == old(self)@,
            },
    {
        let mut device = match self.device_authorizations.get(&id.to_owned()) {
            Some(device) => device.clone(),
            None => {
                return Err(CoreError::NotFound);
            },
        };
        if !same(device.status.as_str(), "approved") {
            return Err(CoreError::NotFound);
        }
        device.status = "consumed".to_owned();
        device.consumed_at = now;
        self.put_device(id, device);
        Ok(())
    }

    /// Uses the approval of a device.
    pub fn consume_device_authorization(&mut self, id: &str) -> (r: Result<(), CoreError>)
        requires
            old(self).wf(),
        ensures
            final(self).wf(),
            match r {
                Ok(_) => old(self)@.consumable(id@) && exists|now: i64|
                    now >= 0 && final(self)@ == #[trigger] old(self)@.after_consumption(id@, now),
                Err(e) => e@ == CoreErrorView::NotFound && !old(self)@.consumable(id@)
                    && final(self)@ == old(self)@,
            },
    {
        let now: i64 = now_unix();
        self.consume_device_authorization_at(id, now)
    }

    /// Ends the wait of a device.
    pub fn expire_device_authorization(&mut self, id: &str) -> (r: Result<(), CoreError>)
        requires
            old(self).wf(),
        ensures
            final(self).wf(),
            r is Ok,
            final(self)@ == old(self)@.after_expiry(id@),
    {
        let mut device = match self.device_authorizations.get(&id.to_owned()) {
            Some(device) => device.clone(),
            None => {
                return Ok(());
            },
        };
        if same(device.status.as_str(), "pending") {
            device.status = "expired".to_owned();
            self.put_device(id, device);
        }
        Ok(())
    }
}

} // verus!
