//! Shared retrieval helpers: canonical retrieval URLs and the instance
//! lookup behind every retrieval path.

use crate::sql::view_opt;
use crate::studies::error::StudiesServiceError;
use crate::studies::models::instance::{InstanceDto, SearchInstanceDto};
use crate::studies::models::metadata::{instance_dto_corresponds, instance_included_pred, MetadataStore};
use vstd::prelude::*;

verus! {

/// The canonical retrieval URL for a hierarchy position: the service
/// origin, then one path segment per given UID, outer levels first.
pub open spec fn retrieve_url_spec(
    origin: Seq<char>,
    study: Option<Seq<char>>,
    series: Option<Seq<char>>,
    instance: Option<Seq<char>>,
) -> Seq<char> {
    match study {
        None => origin,
        Some(st) => {
            let u1 = origin + "/studies/"@ + st;
            match series {
                None => u1,
                Some(se) => {
                    let u2 = u1 + "/series/"@ + se;
                    match instance {
                        None => u2,
                        Some(i) => u2 + "/instances/"@ + i,
                    }
                },
            }
        },
    }
}

/// The URL from which the addressed entity can be retrieved. Inner levels
/// are appended only under their ancestors.
pub fn retrieve_url(
    origin: &str,
    study_instance_uid: Option<String>,
    series_instance_uid: Option<String>,
    sop_instance_uid: Option<String>,
) -> (r: String)
    ensures
        r@ == retrieve_url_spec(
            origin@,
            view_opt(study_instance_uid),
            view_opt(series_instance_uid),
            view_opt(sop_instance_uid),
        ),
{
    let mut url = String::from_str(origin);
    if let Some(study_uid) = study_instance_uid {
        url.append("/studies/");
        url.append(study_uid.as_str());
        if let Some(series_uid) = series_instance_uid {
            url.append("/series/");
            url.append(series_uid.as_str());
            if let Some(instance_uid) = sop_instance_uid {
                url.append("/instances/");
                url.append(instance_uid.as_str());
            }
        }
    }
    proof {
        assert(url@ =~= retrieve_url_spec(
            origin@,
            view_opt(study_instance_uid),
            view_opt(series_instance_uid),
            view_opt(sop_instance_uid),
        ));
    }
    url
}

/// The instances matching a filter, or `NotFound` when none does.
pub fn find_instances(store: &MetadataStore, filter: SearchInstanceDto) -> (r: Result<
    Vec<InstanceDto>,
    StudiesServiceError,
>)
    ensures
        ({
            let ms = store.instances@.filter(
                instance_included_pred(filter, None, None, store.studies@, store.series@),
            );
            match r {
                Ok(v) => ms.len() > 0 && v@.len() == ms.len() && forall|k: int|
                    0 <= k < ms.len() ==> instance_dto_corresponds(
                        #[trigger] v@[k],
                        ms[k],
                        false,
                        false,
                        store.studies@,
                        store.series@,
                        store.instances@,
                    ),
                Err(e) => e is NotFound && ms.len() == 0,
            }
        }),
{
    let found = crate::studies::models::instance::find(store, None, None, filter);
    if found.len() == 0 {
        return Err(StudiesServiceError::NotFound);
    }
    Ok(found)
}

} // verus!
