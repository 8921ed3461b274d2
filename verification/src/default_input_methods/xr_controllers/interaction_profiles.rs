//! The controller profiles that bindings are suggested for.

use vstd::prelude::*;

verus! {

/// A controller profile of OpenXR.
#[derive(Clone, Copy, Debug, PartialEq, Eq, Structural, Hash)]
pub enum SupportedInteractionProfile {
    /// `/interaction_profiles/htc/vive_controller`
    ViveWand,
    /// `/interaction_profiles/oculus/touch_controller`
    OculusTouch,
    /// `/interaction_profiles/valve/index_controller`
    ValveIndex,
    /// `/interaction_profiles/hp/mixed_reality_controller`
    HpReverbG2,
    /// `/interaction_profiles/bytedance/pico4_controller`
    /// Requires the `XR_BD_controller_interaction` extension on OpenXR 1.0
    Pico4,
    /// `/interaction_profiles/htc/vive_cosmos_controller`
    /// Requires the `XR_HTC_vive_cosmos_controller_interaction` extension on OpenXR 1.0
    ViveCosmos,
    /// `/interaction_profiles/htc/vive_focus3_controller`
    /// Requires the `XR_HTC_vive_focus3_controller_interaction` extension on OpenXR 1.0
    ViveFocus3,
}

impl SupportedInteractionProfile {
    /// The OpenXR path of the profile.
    pub open spec fn path(self) -> Seq<char> {
        match self {
            SupportedInteractionProfile::ViveWand => "/interaction_profiles/htc/vive_controller"@,
            SupportedInteractionProfile::OculusTouch => {
                "/interaction_profiles/oculus/touch_controller"@
            },
            SupportedInteractionProfile::ValveIndex => {
                "/interaction_profiles/valve/index_controller"@
            },
            SupportedInteractionProfile::HpReverbG2 => {
                "/interaction_profiles/hp/mixed_reality_controller"@
            },
            SupportedInteractionProfile::Pico4 => {
                "/interaction_profiles/bytedance/pico4_controller"@
            },
            SupportedInteractionProfile::ViveCosmos => {
                "/interaction_profiles/htc/vive_cosmos_controller"@
            },
            SupportedInteractionProfile::ViveFocus3 => {
                "/interaction_profiles/htc/vive_focus3_controller"@
            },
        }
    }

    pub fn get_path(&self) -> (path: &'static str)
        ensures
            path@ == self.path(),
    {
        match self {
            SupportedInteractionProfile::ViveWand => "/interaction_profiles/htc/vive_controller",
            SupportedInteractionProfile::OculusTouch => {
                "/interaction_profiles/oculus/touch_controller"
            },
            SupportedInteractionProfile::ValveIndex => {
                "/interaction_profiles/valve/index_controller"
            },
            SupportedInteractionProfile::HpReverbG2 => {
                "/interaction_profiles/hp/mixed_reality_controller"
            },
            SupportedInteractionProfile::Pico4 => {
                "/interaction_profiles/bytedance/pico4_controller"
            },
            SupportedInteractionProfile::ViveCosmos => {
                "/interaction_profiles/htc/vive_cosmos_controller"
            },
            SupportedInteractionProfile::ViveFocus3 => {
                "/interaction_profiles/htc/vive_focus3_controller"
            },
        }
    }
}

} // verus!
