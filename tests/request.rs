use petstore::model::{OrderStatus, Status};
use petstore::request::{
    EndpointError, FindPetsByStatusesParam, FindPetsByTagsParam, Request, UpdatePetParam,
};

fn pairs(items: &[(&str, &str)]) -> Vec<(String, String)> {
    items.iter().map(|(k, v)| (k.to_string(), v.to_string())).collect()
}

#[test]
fn status_names() {
    assert_eq!(Status::parse("available"), Some(Status::Available));
    assert_eq!(Status::parse("pending"), Some(Status::Pending));
    assert_eq!(Status::parse("adopted"), Some(Status::Adopted));
    assert_eq!(Status::parse("sold"), None);
    assert_eq!(Status::parse("Available"), None);
    assert_eq!(Status::Adopted.as_str(), "adopted");
    assert_eq!(OrderStatus::parse("delivered"), Some(OrderStatus::Delivered));
    assert_eq!(OrderStatus::parse(""), None);
    assert_eq!(OrderStatus::Placed.as_str(), "placed");
    assert_eq!(OrderStatus::Approved.as_str(), "approved");
}

#[test]
fn find_pets_by_status_query() {
    let param = FindPetsByStatusesParam::from_pairs(&pairs(&[("status", "available,adopted")]));
    assert_eq!(param, Ok(FindPetsByStatusesParam { status: vec![Status::Available, Status::Adopted] }));
    let req = Request::FindPetsByStatuses(param.unwrap());
    assert_eq!(
        req,
        Request::FindPetsByStatuses(FindPetsByStatusesParam {
            status: vec![Status::Available, Status::Adopted],
        })
    );
}

#[test]
fn find_pets_by_status_query_errors() {
    assert_eq!(
        FindPetsByStatusesParam::from_pairs(&pairs(&[])),
        Err(EndpointError::MissingKey("status".to_string()))
    );
    assert_eq!(
        FindPetsByStatusesParam::from_pairs(&pairs(&[("state", "available")])),
        Err(EndpointError::InvalidKey("state".to_string()))
    );
    assert_eq!(
        FindPetsByStatusesParam::from_pairs(&pairs(&[("status", "available,sold")])),
        Err(EndpointError::InvalidStatus("available,sold".to_string()))
    );
    assert_eq!(
        FindPetsByStatusesParam::from_pairs(&pairs(&[("status", "pending"), ("status", "adopted")])),
        Ok(FindPetsByStatusesParam { status: vec![Status::Adopted] })
    );
}

#[test]
fn find_pets_by_tags_query() {
    assert_eq!(
        FindPetsByTagsParam::from_pairs(&pairs(&[("tags", "cat,cute")])),
        Ok(FindPetsByTagsParam { tags: vec!["cat".to_string(), "cute".to_string()] })
    );
    assert_eq!(
        FindPetsByTagsParam::from_pairs(&pairs(&[("tags", "a,,b")])),
        Ok(FindPetsByTagsParam { tags: vec!["a".to_string(), String::new(), "b".to_string()] })
    );
    assert_eq!(
        FindPetsByTagsParam::from_pairs(&pairs(&[])),
        Err(EndpointError::MissingKey("tags".to_string()))
    );
    assert_eq!(
        FindPetsByTagsParam::from_pairs(&pairs(&[("tag", "cat")])),
        Err(EndpointError::InvalidKey("tag".to_string()))
    );
}

#[test]
fn update_pet_via_form_body() {
    let param = UpdatePetParam::from_pairs(&pairs(&[("name", "Alice"), ("status", "available")]));
    assert_eq!(
        param.map(|p| Request::UpdatePetViaForm(42, p)),
        Ok(Request::UpdatePetViaForm(
            42,
            UpdatePetParam { name: Some("Alice".to_string()), status: Some(Status::Available) }
        ))
    );
    assert_eq!(
        UpdatePetParam::from_pairs(&pairs(&[])),
        Ok(UpdatePetParam { name: None, status: None })
    );
    assert_eq!(
        UpdatePetParam::from_pairs(&pairs(&[("status", "gone")])),
        Err(EndpointError::InvalidStatus("gone".to_string()))
    );
    assert_eq!(
        UpdatePetParam::from_pairs(&pairs(&[("name", "x"), ("colour", "red")])),
        Err(EndpointError::InvalidKey("colour".to_string()))
    );
}
