//! Device-flow support adapters.

use vstd::prelude::*;

use crate::error::CoreError;
use crate::ids;
use crate::ids::{random_secret, random_user_code};

verus! {

/// Makes up device codes and user codes from random UUIDs.
#[derive(Debug, Default)]
pub struct UuidDeviceCodeGenerator;

impl UuidDeviceCodeGenerator {
    /// A device code: sixty-four hexadecimal digits.
    pub fn device_code(&self) -> (r: Result<String, CoreError>)
        ensures
            r matches Ok(code) && ids::is_secret(code@),
    {
        Ok(random_secret())
    }

    /// A user code: two groups of four hexadecimal digits in capitals.
    pub fn user_code(&self) -> (r: Result<String, CoreError>)
        ensures
            r matches Ok(code) && exists|raw: Seq<char>|
                ids::is_simple_uuid(raw) && code@ == #[trigger] ids::user_code_of(raw),
    {
        Ok(random_user_code())
    }
}

} // verus!
