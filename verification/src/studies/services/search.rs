//! Assembly of search responses: for each found row, the stored object's
//! metadata is merged with the derived aggregates and the canonical
//! retrieval URL, field by field.

use crate::sql::dec_str;
use crate::studies::models::series::SeriesDto;
use crate::studies::models::study::StudyDto;
use crate::studies::services::utils::retrieve_url_spec;
use crate::utils::dicom::{
    elem_lookup, element_str, element_to_str, tags, DicomElement, DicomObject, DicomValue, Vr,
};
use vstd::prelude::*;

verus! {

/// The fields of a study search response that are copied verbatim from the
/// stored object.
pub open spec fn copied_study_field(t: u32) -> bool {
    ||| t == tags::STUDY_DATE
    ||| t == tags::STUDY_TIME
    ||| t == tags::ACCESSION_NUMBER
    ||| t == tags::INSTANCE_AVAILABILITY
    ||| t == tags::REFERRING_PHYSICIAN_NAME
    ||| t == tags::TIMEZONE_OFFSET_FROM_UTC
    ||| t == tags::PATIENT_NAME
    ||| t == tags::PATIENT_ID
    ||| t == tags::PATIENT_BIRTH_DATE
    ||| t == tags::PATIENT_SEX
    ||| t == tags::STUDY_INSTANCE_UID
    ||| t == tags::STUDY_ID
}

/// All fields of a study search response.
pub open spec fn study_field(t: u32) -> bool {
    ||| copied_study_field(t)
    ||| t == tags::MODALITIES_IN_STUDY
    ||| t == tags::RETRIEVE_URL
    ||| t == tags::NUMBER_OF_STUDY_RELATED_SERIES
    ||| t == tags::NUMBER_OF_STUDY_RELATED_INSTANCES
}

/// Copy the string values out of a list.
fn clone_strings(v: &Vec<String>) -> (r: Vec<String>)
    ensures
        r.deep_view() == v.deep_view(),
{
    let mut out: Vec<String> = Vec::new();
    let mut i: usize = 0;
    while i < v.len()
        invariant
            i <= v@.len(),
            out.deep_view() == v.deep_view().take(i as int),
        decreases v@.len() - i,
    {
        let ghost prev = out.deep_view();
        out.push(String::from_str(v[i].as_str()));
        proof {
            assert(out.deep_view() =~= prev.push(v@[i as int]@));
            assert(v.deep_view().take(i + 1 as int) =~= v.deep_view().take(i as int).push(
                v.deep_view()[i as int],
            ));
        }
        i += 1;
    }
    proof {
        assert(v.deep_view().take(v.deep_view().len() as int) == v.deep_view());
    }
    out
}

/// Move the element bearing the tag, if any, from the stored object into
/// the response object.
fn copy_field(obj: &mut DicomObject, source: &mut DicomObject, tag: u32)
    ensures
        ({
            match elem_lookup(old(source).elements@, tag) {
                Some(e) => elem_lookup(final(obj).elements@, tag) == Some(e),
                None => elem_lookup(final(obj).elements@, tag) == elem_lookup(
                    old(obj).elements@,
                    tag,
                ),
            }
        }),
        forall|t: u32|
            t != tag ==> #[trigger] elem_lookup(final(obj).elements@, t) == elem_lookup(
                old(obj).elements@,
                t,
            ),
        forall|t: u32|
            t != tag ==> #[trigger] elem_lookup(final(source).elements@, t) == elem_lookup(
                old(source).elements@,
                t,
            ),
{
    if let Some(e) = source.take(tag) {
        obj.put(e);
    }
}

/// Merge a study row into a response object: the stored object's fields
/// are copied over, the modality aggregate and the two counts come from
/// the row, and the retrieval URL addresses the study.
#[verifier::rlimit(100)]
#[verifier::spinoff_prover]
pub fn read_dicom_study(obj: &mut DicomObject, origin: &str, study: &StudyDto, source: DicomObject)
    ensures
        ({
            let es = final(obj).elements@;
            let src = source.elements@;
            &&& (elem_lookup(es, tags::MODALITIES_IN_STUDY) matches Some(e) && e.tag
                == tags::MODALITIES_IN_STUDY && e.vr == Vr::CS && (e.value matches
            DicomValue::MultiText(v) && v.deep_view()
                == study.modalities_in_study.deep_view()))
            &&& (elem_lookup(es, tags::RETRIEVE_URL) matches Some(e) && e.tag
                == tags::RETRIEVE_URL && e.vr == Vr::UR && (e.value matches DicomValue::Text(s)
                && s@ == retrieve_url_spec(
                origin@,
                element_str(src, tags::STUDY_INSTANCE_UID),
                None,
                None,
            )))
            &&& (elem_lookup(es, tags::NUMBER_OF_STUDY_RELATED_SERIES) matches Some(e) && e.vr
                == Vr::IS && (e.value matches DicomValue::Text(s) && s@ == dec_str(
                study.number_of_study_related_series as nat,
            )))
            &&& (elem_lookup(es, tags::NUMBER_OF_STUDY_RELATED_INSTANCES) matches Some(e) && e.vr
                == Vr::IS && (e.value matches DicomValue::Text(s) && s@ == dec_str(
                study.number_of_study_related_instances as nat,
            )))
            &&& forall|t: u32|
                #[trigger] copied_study_field(t) ==> (match elem_lookup(src, t) {
                    Some(e) => elem_lookup(es, t) == Some(e),
                    None => elem_lookup(es, t) == elem_lookup(old(obj).elements@, t),
                })
            &&& forall|t: u32|
                !study_field(t) ==> #[trigger] elem_lookup(es, t) == elem_lookup(
                    old(obj).elements@,
                    t,
                )
        }),
{
    let study_uid_str = element_to_str(&source, tags::STUDY_INSTANCE_UID);
    let url = crate::studies::services::utils::retrieve_url(origin, study_uid_str, None, None);
    let mut source = source;
    copy_field(obj, &mut source, tags::STUDY_DATE);
    copy_field(obj, &mut source, tags::STUDY_TIME);
    copy_field(obj, &mut source, tags::ACCESSION_NUMBER);
    copy_field(obj, &mut source, tags::INSTANCE_AVAILABILITY);
    copy_field(obj, &mut source, tags::REFERRING_PHYSICIAN_NAME);
    copy_field(obj, &mut source, tags::TIMEZONE_OFFSET_FROM_UTC);
    copy_field(obj, &mut source, tags::PATIENT_NAME);
    copy_field(obj, &mut source, tags::PATIENT_ID);
    copy_field(obj, &mut source, tags::PATIENT_BIRTH_DATE);
    copy_field(obj, &mut source, tags::PATIENT_SEX);
    copy_field(obj, &mut source, tags::STUDY_INSTANCE_UID);
    copy_field(obj, &mut source, tags::STUDY_ID);
    obj.put(
        DicomElement {
            tag: tags::MODALITIES_IN_STUDY,
            vr: Vr::CS,
            length: 0,
            value: DicomValue::MultiText(clone_strings(&study.modalities_in_study)),
        },
    );
    obj.put(
        DicomElement {
            tag: tags::RETRIEVE_URL,
            vr: Vr::UR,
            length: 0,
            value: DicomValue::Text(url),
        },
    );
    obj.put(
        DicomElement {
            tag: tags::NUMBER_OF_STUDY_RELATED_SERIES,
            vr: Vr::IS,
            length: 0,
            value: DicomValue::Text(
                crate::sql::u64_to_string(study.number_of_study_related_series),
            ),
        },
    );
    obj.put(
        DicomElement {
            tag: tags::NUMBER_OF_STUDY_RELATED_INSTANCES,
            vr: Vr::IS,
            length: 0,
            value: DicomValue::Text(
                crate::sql::u64_to_string(study.number_of_study_related_instances),
            ),
        },
    );
}

/// The fields of a series search response that are copied verbatim from
/// the stored object.
pub open spec fn copied_series_field(t: u32) -> bool {
    ||| t == tags::MODALITY
    ||| t == tags::TIMEZONE_OFFSET_FROM_UTC
    ||| t == tags::SERIES_DESCRIPTION
    ||| t == tags::SERIES_INSTANCE_UID
    ||| t == tags::SERIES_NUMBER
    ||| t == tags::PERFORMED_PROCEDURE_STEP_START_DATE
    ||| t == tags::PERFORMED_PROCEDURE_STEP_START_TIME
    ||| t == tags::REQUEST_ATTRIBUTES_SEQUENCE
}

/// All fields of a series search response.
pub open spec fn series_field(t: u32) -> bool {
    ||| copied_series_field(t)
    ||| t == tags::RETRIEVE_URL
    ||| t == tags::NUMBER_OF_SERIES_RELATED_INSTANCES
}

/// Merge a series row into a response object: the stored object's fields
/// are copied over, the instance count comes from the row, and the
/// retrieval URL addresses the series under its study.
#[verifier::rlimit(100)]
#[verifier::spinoff_prover]
pub fn read_dicom_series(
    obj: &mut DicomObject,
    origin: &str,
    series: &SeriesDto,
    source: DicomObject,
)
    ensures
        ({
            let es = final(obj).elements@;
            let src = source.elements@;
            &&& (elem_lookup(es, tags::RETRIEVE_URL) matches Some(e) && e.tag
                == tags::RETRIEVE_URL && e.vr == Vr::UR && (e.value matches DicomValue::Text(s)
                && s@ == retrieve_url_spec(
                origin@,
                element_str(src, tags::STUDY_INSTANCE_UID),
                element_str(src, tags::SERIES_INSTANCE_UID),
                None,
            )))
            &&& (elem_lookup(es, tags::NUMBER_OF_SERIES_RELATED_INSTANCES) matches Some(e) && e.vr
                == Vr::IS && (e.value matches DicomValue::Text(s) && s@ == dec_str(
                series.number_of_series_related_instances as nat,
            )))
            &&& forall|t: u32|
                #[trigger] copied_series_field(t) ==> (match elem_lookup(src, t) {
                    Some(e) => elem_lookup(es, t) == Some(e),
                    None => elem_lookup(es, t) == elem_lookup(old(obj).elements@, t),
                })
            &&& forall|t: u32|
                !series_field(t) ==> #[trigger] elem_lookup(es, t) == elem_lookup(
                    old(obj).elements@,
                    t,
                )
        }),
{
    let study_uid_str = element_to_str(&source, tags::STUDY_INSTANCE_UID);
    let series_uid_str = element_to_str(&source, tags::SERIES_INSTANCE_UID);
    let url = crate::studies::services::utils::retrieve_url(
        origin,
        study_uid_str,
        series_uid_str,
        None,
    );
    let mut source = source;
    copy_field(obj, &mut source, tags::MODALITY);
    copy_field(obj, &mut source, tags::TIMEZONE_OFFSET_FROM_UTC);
    copy_field(obj, &mut source, tags::SERIES_DESCRIPTION);
    copy_field(obj, &mut source, tags::SERIES_INSTANCE_UID);
    copy_field(obj, &mut source, tags::SERIES_NUMBER);
    copy_field(obj, &mut source, tags::PERFORMED_PROCEDURE_STEP_START_DATE);
    copy_field(obj, &mut source, tags::PERFORMED_PROCEDURE_STEP_START_TIME);
    copy_field(obj, &mut source, tags::REQUEST_ATTRIBUTES_SEQUENCE);
    obj.put(
        DicomElement {
            tag: tags::RETRIEVE_URL,
            vr: Vr::UR,
            length: 0,
            value: DicomValue::Text(url),
        },
    );
    obj.put(
        DicomElement {
            tag: tags::NUMBER_OF_SERIES_RELATED_INSTANCES,
            vr: Vr::IS,
            length: 0,
            value: DicomValue::Text(
                crate::sql::u64_to_string(series.number_of_series_related_instances),
            ),
        },
    );
}

/// The fields of an instance search response that are copied verbatim from
/// the stored object.
pub open spec fn copied_instance_field(t: u32) -> bool {
    ||| t == tags::SOP_CLASS_UID
    ||| t == tags::SOP_INSTANCE_UID
    ||| t == tags::INSTANCE_AVAILABILITY
    ||| t == tags::TIMEZONE_OFFSET_FROM_UTC
    ||| t == tags::INSTANCE_NUMBER
    ||| t == tags::ROWS
    ||| t == tags::COLUMNS
    ||| t == tags::BITS_ALLOCATED
    ||| t == tags::NUMBER_OF_FRAMES
}

/// All fields of an instance search response.
pub open spec fn instance_field(t: u32) -> bool {
    copied_instance_field(t) || t == tags::RETRIEVE_URL
}

/// Merge an instance row into a response object: the stored object's
/// fields are copied over, and the retrieval URL addresses the instance
/// under its series and study.
#[verifier::rlimit(100)]
#[verifier::spinoff_prover]
pub fn read_dicom_instance(obj: &mut DicomObject, origin: &str, source: DicomObject)
    ensures
        ({
            let es = final(obj).elements@;
            let src = source.elements@;
            &&& (elem_lookup(es, tags::RETRIEVE_URL) matches Some(e) && e.tag
                == tags::RETRIEVE_URL && e.vr == Vr::UR && (e.value matches DicomValue::Text(s)
                && s@ == retrieve_url_spec(
                origin@,
                element_str(src, tags::STUDY_INSTANCE_UID),
                element_str(src, tags::SERIES_INSTANCE_UID),
                element_str(src, tags::SOP_INSTANCE_UID),
            )))
            &&& forall|t: u32|
                #[trigger] copied_instance_field(t) ==> (match elem_lookup(src, t) {
                    Some(e) => elem_lookup(es, t) == Some(e),
                    None => elem_lookup(es, t) == elem_lookup(old(obj).elements@, t),
                })
            &&& forall|t: u32|
                !instance_field(t) ==> #[trigger] elem_lookup(es, t) == elem_lookup(
                    old(obj).elements@,
                    t,
                )
        }),
{
    let study_uid_str = element_to_str(&source, tags::STUDY_INSTANCE_UID);
    let series_uid_str = element_to_str(&source, tags::SERIES_INSTANCE_UID);
    let sop_uid_str = element_to_str(&source, tags::SOP_INSTANCE_UID);
    let url = crate::studies::services::utils::retrieve_url(
        origin,
        study_uid_str,
        series_uid_str,
        sop_uid_str,
    );
    let mut source = source;
    copy_field(obj, &mut source, tags::SOP_CLASS_UID);
    copy_field(obj, &mut source, tags::SOP_INSTANCE_UID);
    copy_field(obj, &mut source, tags::INSTANCE_AVAILABILITY);
    copy_field(obj, &mut source, tags::TIMEZONE_OFFSET_FROM_UTC);
    copy_field(obj, &mut source, tags::INSTANCE_NUMBER);
    copy_field(obj, &mut source, tags::ROWS);
    copy_field(obj, &mut source, tags::COLUMNS);
    copy_field(obj, &mut source, tags::BITS_ALLOCATED);
    copy_field(obj, &mut source, tags::NUMBER_OF_FRAMES);
    obj.put(
        DicomElement {
            tag: tags::RETRIEVE_URL,
            vr: Vr::UR,
            length: 0,
            value: DicomValue::Text(url),
        },
    );
}

} // verus!
