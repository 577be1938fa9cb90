//! A virtual camera standing for a registered mobile.

use vstd::prelude::*;

use crate::app_data::MobileSchema;

verus! {

/// The virtual camera of one mobile.
#[derive(Debug, Clone)]
pub struct VCamDevice {
    mobile: MobileSchema,
}

impl VCamDevice {
    pub fn new(mobile: MobileSchema) -> (r: Self)
        ensures
            r.mobile() == mobile,
    {
        VCamDevice { mobile }
    }

    pub closed spec fn mobile(&self) -> MobileSchema {
        self.mobile
    }

    /// The mobile the camera stands for.
    pub fn get_mobile(&self) -> (r: &MobileSchema)
        ensures
            *r == self.mobile(),
    {
        &self.mobile
    }
}

} // verus!
