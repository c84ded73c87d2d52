//! Telling modules by their model names.

use quectel_webui::device::{lookup_profile, DeviceId};

#[test]
fn test_profile_matching_rm520n_gl() {
    let p = lookup_profile("RM520N-GL");
    assert_eq!(p.id, DeviceId::Rm520n);
}

#[test]
fn test_profile_matching_rg520n() {
    let p = lookup_profile("RG520NGLAA-m4g");
    assert_eq!(p.id, DeviceId::Rm520n);
}

#[test]
fn test_profile_matching_rm502q_ae() {
    let p = lookup_profile("RM502Q-AE");
    assert_eq!(p.id, DeviceId::Rm502q);
}

#[test]
fn test_profile_matching_rm502q_full() {
    let p = lookup_profile("RM502QAEAR11A02M4G");
    assert_eq!(p.id, DeviceId::Rm502q);
}

#[test]
fn test_profile_matching_fallback() {
    let p = lookup_profile("UNKNOWN_MODULE");
    assert_eq!(p.id, DeviceId::Generic);
}

#[test]
fn test_scs_threshold_rm502q() {
    let p = lookup_profile("RM502Q-AE");
    assert_eq!(p.nr_cell_lock_scs_threshold, 28);
}
