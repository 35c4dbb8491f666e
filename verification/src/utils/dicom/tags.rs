//! The attribute tags the archive reads and writes, each as one `u32`
//! holding the group in the high half and the element in the low half.

use vstd::prelude::*;

verus! {

pub const SOP_CLASS_UID: u32 = 0x0008_0016;

pub const SOP_INSTANCE_UID: u32 = 0x0008_0018;

pub const STUDY_DATE: u32 = 0x0008_0020;

pub const STUDY_TIME: u32 = 0x0008_0030;

pub const ACCESSION_NUMBER: u32 = 0x0008_0050;

pub const INSTANCE_AVAILABILITY: u32 = 0x0008_0056;

pub const MODALITY: u32 = 0x0008_0060;

pub const MODALITIES_IN_STUDY: u32 = 0x0008_0061;

pub const REFERRING_PHYSICIAN_NAME: u32 = 0x0008_0090;

pub const SERIES_DESCRIPTION: u32 = 0x0008_103E;

pub const REFERENCED_SOP_CLASS_UID: u32 = 0x0008_1150;

pub const REFERENCED_SOP_INSTANCE_UID: u32 = 0x0008_1155;

pub const RETRIEVE_URL: u32 = 0x0008_1190;

pub const WARNING_REASON: u32 = 0x0008_1196;

pub const FAILURE_REASON: u32 = 0x0008_1197;

pub const FAILED_SOP_SEQUENCE: u32 = 0x0008_1198;

pub const REFERENCED_SOP_SEQUENCE: u32 = 0x0008_1199;

pub const OTHER_FAILURES_SEQUENCE: u32 = 0x0008_119A;

pub const TIMEZONE_OFFSET_FROM_UTC: u32 = 0x0008_0201;

pub const PATIENT_NAME: u32 = 0x0010_0010;

pub const PATIENT_ID: u32 = 0x0010_0020;

pub const PATIENT_BIRTH_DATE: u32 = 0x0010_0030;

pub const PATIENT_SEX: u32 = 0x0010_0040;

pub const STUDY_INSTANCE_UID: u32 = 0x0020_000D;

pub const SERIES_INSTANCE_UID: u32 = 0x0020_000E;

pub const STUDY_ID: u32 = 0x0020_0010;

pub const SERIES_NUMBER: u32 = 0x0020_0011;

pub const INSTANCE_NUMBER: u32 = 0x0020_0013;

pub const NUMBER_OF_STUDY_RELATED_SERIES: u32 = 0x0020_1206;

pub const NUMBER_OF_STUDY_RELATED_INSTANCES: u32 = 0x0020_1208;

pub const NUMBER_OF_SERIES_RELATED_INSTANCES: u32 = 0x0020_1209;

pub const NUMBER_OF_FRAMES: u32 = 0x0028_0008;

pub const ROWS: u32 = 0x0028_0010;

pub const COLUMNS: u32 = 0x0028_0011;

pub const BITS_ALLOCATED: u32 = 0x0028_0100;

pub const PERFORMED_PROCEDURE_STEP_START_DATE: u32 = 0x0040_0244;

pub const PERFORMED_PROCEDURE_STEP_START_TIME: u32 = 0x0040_0245;

pub const REQUEST_ATTRIBUTES_SEQUENCE: u32 = 0x0040_0275;

pub const PIXEL_DATA: u32 = 0x7FE0_0010;

} // verus!
