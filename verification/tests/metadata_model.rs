use dicom_archive::config::{AppConfig, DatabaseConfig, HttpServerConfig, StorageConfig};
use dicom_archive::studies::services::search::{read_dicom_study, read_dicom_series};
use dicom_archive::studies::services::utils::retrieve_url;
use dicom_archive::studies::models::series::SeriesDto;
use dicom_archive::studies::models::study::StudyDto;
use dicom_archive::utils::dicom::{
    element_to_str, empty_if_unknown, filter_dicom_elements, tags, DicomElement, DicomObject,
    DicomValue, Vr,
};

fn text_element(tag: u32, vr: Vr, s: &str) -> DicomElement {
    DicomElement { tag, vr, length: s.len() as u64, value: DicomValue::Text(String::from(s)) }
}

#[test]
fn element_lookup_reads_strings() {
    let mut obj = DicomObject::new_empty();
    obj.put(text_element(tags::PATIENT_NAME, Vr::PN, "DOE"));
    obj.put(DicomElement {
        tag: tags::MODALITIES_IN_STUDY,
        vr: Vr::CS,
        length: 5,
        value: DicomValue::MultiText(vec![String::from("CT"), String::from("MR")]),
    });
    assert_eq!(element_to_str(&obj, tags::PATIENT_NAME), Some(String::from("DOE")));
    assert_eq!(
        element_to_str(&obj, tags::MODALITIES_IN_STUDY),
        Some(String::from("CT\\MR"))
    );
    assert_eq!(element_to_str(&obj, tags::PATIENT_ID), None);
    assert_eq!(empty_if_unknown(&obj, tags::PATIENT_ID), "");
}

#[test]
fn put_replaces_the_element_with_the_same_tag() {
    let mut obj = DicomObject::new_empty();
    obj.put(text_element(tags::PATIENT_NAME, Vr::PN, "ONE"));
    obj.put(text_element(tags::PATIENT_NAME, Vr::PN, "TWO"));
    assert_eq!(obj.elements.len(), 1);
    assert_eq!(element_to_str(&obj, tags::PATIENT_NAME), Some(String::from("TWO")));
}

#[test]
fn metadata_filter_drops_bulk_and_oversized_elements() {
    let mut obj = DicomObject::new_empty();
    obj.put(text_element(tags::PATIENT_NAME, Vr::PN, "DOE"));
    obj.put(DicomElement {
        tag: tags::PIXEL_DATA,
        vr: Vr::OW,
        length: 100,
        value: DicomValue::Text(String::new()),
    });
    obj.put(DicomElement {
        tag: tags::REQUEST_ATTRIBUTES_SEQUENCE,
        vr: Vr::SQ,
        length: 2000000,
        value: DicomValue::Items(Vec::new()),
    });
    obj.put(DicomElement {
        tag: tags::REFERENCED_SOP_SEQUENCE,
        vr: Vr::SQ,
        length: 10,
        value: DicomValue::Items(Vec::new()),
    });
    let filtered = filter_dicom_elements(obj);
    assert_eq!(filtered.elements.len(), 2);
    assert_eq!(filtered.elements[0].tag, tags::PATIENT_NAME);
    assert_eq!(filtered.elements[1].tag, tags::REFERENCED_SOP_SEQUENCE);
}

#[test]
fn retrieve_url_nests_only_under_ancestors() {
    assert_eq!(retrieve_url("http://o", None, None, None), "http://o");
    assert_eq!(
        retrieve_url("http://o", Some(String::from("1")), None, Some(String::from("3"))),
        "http://o/studies/1"
    );
    assert_eq!(
        retrieve_url(
            "http://o",
            Some(String::from("1")),
            Some(String::from("2")),
            Some(String::from("3"))
        ),
        "http://o/studies/1/series/2/instances/3"
    );
}

#[test]
fn read_dicom_study_merges_row_and_object() {
    let mut source = DicomObject::new_empty();
    source.put(text_element(tags::STUDY_INSTANCE_UID, Vr::UI, "1.2.3"));
    source.put(text_element(tags::PATIENT_NAME, Vr::PN, "DOE"));
    source.put(text_element(tags::PIXEL_DATA, Vr::OW, "xxxx"));
    let study = StudyDto {
        modalities_in_study: vec![String::from("CT")],
        number_of_study_related_series: 2,
        number_of_study_related_instances: 5,
        path: String::from("token"),
    };
    let mut obj = DicomObject::new_empty();
    read_dicom_study(&mut obj, "http://o", &study, source);
    assert_eq!(element_to_str(&obj, tags::STUDY_INSTANCE_UID), Some(String::from("1.2.3")));
    assert_eq!(element_to_str(&obj, tags::PATIENT_NAME), Some(String::from("DOE")));
    assert_eq!(
        element_to_str(&obj, tags::RETRIEVE_URL),
        Some(String::from("http://o/studies/1.2.3"))
    );
    assert_eq!(
        element_to_str(&obj, tags::NUMBER_OF_STUDY_RELATED_SERIES),
        Some(String::from("2"))
    );
    assert_eq!(
        element_to_str(&obj, tags::NUMBER_OF_STUDY_RELATED_INSTANCES),
        Some(String::from("5"))
    );
    assert_eq!(
        element_to_str(&obj, tags::MODALITIES_IN_STUDY),
        Some(String::from("CT"))
    );
    // the bulk pixel element is not a study response field
    assert_eq!(element_to_str(&obj, tags::PIXEL_DATA), None);
}

#[test]
fn read_dicom_series_appends_to_the_study_fields() {
    let mut source = DicomObject::new_empty();
    source.put(text_element(tags::STUDY_INSTANCE_UID, Vr::UI, "1.2.3"));
    source.put(text_element(tags::SERIES_INSTANCE_UID, Vr::UI, "1.2.3.4"));
    source.put(text_element(tags::MODALITY, Vr::CS, "CT"));
    let series = SeriesDto {
        number_of_series_related_instances: 7,
        path: String::from("token"),
        study: None,
    };
    let mut obj = DicomObject::new_empty();
    read_dicom_series(&mut obj, "http://o", &series, source);
    assert_eq!(
        element_to_str(&obj, tags::RETRIEVE_URL),
        Some(String::from("http://o/studies/1.2.3/series/1.2.3.4"))
    );
    assert_eq!(
        element_to_str(&obj, tags::NUMBER_OF_SERIES_RELATED_INSTANCES),
        Some(String::from("7"))
    );
    assert_eq!(element_to_str(&obj, tags::MODALITY), Some(String::from("CT")));
}

#[test]
fn config_derives_addresses_and_database_url() {
    let config = AppConfig::new(
        HttpServerConfig {
            host: String::from("0.0.0.0"),
            port: 3000,
            origin: None,
            max_upload_size: String::from("4GiB"),
        },
        StorageConfig { path: String::from("./data") },
        DatabaseConfig { url: None },
    );
    assert_eq!(config.server.addr(), "0.0.0.0:3000");
    assert_eq!(config.server.origin(), "http://127.0.0.1:3000");
    assert_eq!(config.database_url(), "sqlite://./data/data.db");
    let explicit = AppConfig::new(
        HttpServerConfig {
            host: String::from("example.test"),
            port: 80,
            origin: Some(String::from("https://pacs.example.test")),
            max_upload_size: String::from("1GiB"),
        },
        StorageConfig { path: String::from("/var/data") },
        DatabaseConfig { url: Some(String::from("postgres://db/x")) },
    );
    assert_eq!(explicit.server.origin(), "https://pacs.example.test");
    assert_eq!(explicit.server.addr(), "example.test:80");
    assert_eq!(explicit.database_url(), "postgres://db/x");
}
