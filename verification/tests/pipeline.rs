use std::collections::HashSet;

use task_pipeline::errors::{error_status, DomainError};
use task_pipeline::extensions::{Extensions, RESOURCE_KEY};
use task_pipeline::handle::ResourceHandle;
use task_pipeline::router::{Body, HandlerKind, Method, Request, Response, Router, Segment};
use task_pipeline::service::{ConnectionLayer, ConnectionService, RouterService, Service};
use task_pipeline::task::TaskPayload;

fn routes() -> Router {
    let mut r = Router::new();
    r.register(
        Method::Get,
        vec![Segment::Lit("entities".to_string())],
        HandlerKind::ListTasks,
    )
    .unwrap();
    r.register(
        Method::Post,
        vec![Segment::Lit("entities".to_string())],
        HandlerKind::CreateTask,
    )
    .unwrap();
    r.register(
        Method::Get,
        vec![Segment::Lit("entities".to_string()), Segment::Param],
        HandlerKind::GetTask,
    )
    .unwrap();
    r.register(
        Method::Patch,
        vec![Segment::Lit("entities".to_string()), Segment::Param],
        HandlerKind::UpdateTask,
    )
    .unwrap();
    r.register(
        Method::Delete,
        vec![Segment::Lit("entities".to_string()), Segment::Param],
        HandlerKind::DeleteTask,
    )
    .unwrap();
    r
}

fn pipeline() -> ConnectionService<RouterService> {
    ConnectionLayer::new(7).layer(RouterService::new(routes(), ResourceHandle::new()))
}

fn req(method: Method, path: &[&str], payload: Option<TaskPayload>) -> Request {
    Request {
        method,
        path: path.iter().map(|s| s.to_string()).collect(),
        payload,
        extensions: Extensions::new(),
    }
}

fn payload(title: Option<&str>, description: Option<&str>, done: Option<bool>) -> TaskPayload {
    TaskPayload {
        title: title.map(|s| s.to_string()),
        description: description.map(|s| s.to_string()),
        done,
    }
}

fn send(svc: &mut ConnectionService<RouterService>, r: Request) -> Response {
    assert!(svc.poll_ready());
    svc.call(r)
}

fn id_text(id: u128) -> String {
    uuid::Uuid::from_u128(id).hyphenated().to_string()
}

#[test]
fn extensions_insert_and_overwrite() {
    let mut e = Extensions::new();
    assert_eq!(e.get(3), None);
    e.insert(3, 10);
    assert_eq!(e.get(3), Some(10));
    e.insert(3, 11);
    assert_eq!(e.get(3), Some(11));
    e.insert(4, 12);
    assert_eq!(e.get(3), Some(11));
    assert_eq!(e.get(4), Some(12));
}

#[test]
fn extension_contexts_are_isolated() {
    let marker_key = 99u64;
    let mut e1 = Extensions::new();
    let mut e2 = Extensions::new();
    e1.insert(marker_key, 1);
    e2.insert(marker_key, 2);
    e1.insert(RESOURCE_KEY, 7);
    e2.insert(RESOURCE_KEY, 7);
    assert_eq!(e1.get(marker_key), Some(1));
    assert_eq!(e2.get(marker_key), Some(2));
    assert_ne!(e1.get(marker_key), e2.get(marker_key));
    assert_eq!(e1.get(RESOURCE_KEY), Some(7));
}

#[test]
fn duplicate_registration_is_configuration_error() {
    let mut r = Router::new();
    r.register(
        Method::Get,
        vec![Segment::Lit("entities".to_string())],
        HandlerKind::ListTasks,
    )
    .unwrap();
    let dup = r.register(
        Method::Get,
        vec![Segment::Lit("entities".to_string())],
        HandlerKind::ListTasks,
    );
    assert_eq!(dup, Err(DomainError::Configuration));
    let two_params = r.register(
        Method::Get,
        vec![Segment::Param, Segment::Param],
        HandlerKind::GetTask,
    );
    assert_eq!(two_params, Err(DomainError::Configuration));
}

#[test]
fn unknown_path_is_404_and_wrong_method_is_405() {
    let mut svc = pipeline();
    let r = send(&mut svc, req(Method::Get, &["nothing"], None));
    assert_eq!(r.status, 404);
    assert!(matches!(r.body, Body::Empty));
    let r = send(&mut svc, req(Method::Delete, &["entities"], None));
    assert_eq!(r.status, 405);
    assert!(matches!(r.body, Body::Empty));
}

#[test]
fn create_then_get_round_trip() {
    let mut svc = pipeline();
    let r = send(
        &mut svc,
        req(
            Method::Post,
            &["entities"],
            Some(payload(Some("write the report"), Some("by friday"), None)),
        ),
    );
    assert_eq!(r.status, 201);
    let created = match r.body {
        Body::One(t) => t,
        _ => panic!("expected a task body"),
    };
    assert_eq!(created.title, "write the report");
    assert_eq!(created.description.as_deref(), Some("by friday"));
    assert!(!created.done);

    let id = id_text(created.id);
    let r = send(&mut svc, req(Method::Get, &["entities", &id], None));
    assert_eq!(r.status, 200);
    match r.body {
        Body::One(t) => {
            assert_eq!(t.id, created.id);
            assert_eq!(t.title, "write the report");
            assert_eq!(t.description.as_deref(), Some("by friday"));
            assert!(!t.done);
        }
        _ => panic!("expected a task body"),
    }
}

#[test]
fn get_missing_id_is_404_and_handle_stays_usable() {
    let mut svc = pipeline();
    let r = send(
        &mut svc,
        req(
            Method::Get,
            &["entities", "123e4567-e89b-12d3-a456-426614174000"],
            None,
        ),
    );
    assert_eq!(r.status, 404);
    assert!(matches!(r.body, Body::Problem(DomainError::NotFound)));

    let r = send(
        &mut svc,
        req(Method::Post, &["entities"], Some(payload(Some("next"), None, None))),
    );
    assert_eq!(r.status, 201);
}

#[test]
fn malformed_id_is_400() {
    let mut svc = pipeline();
    let r = send(&mut svc, req(Method::Get, &["entities", "not-a-uuid"], None));
    assert_eq!(r.status, 400);
    assert!(matches!(r.body, Body::Problem(DomainError::Validation)));
}

#[test]
fn patch_without_title_is_400_and_leaves_entity_unchanged() {
    let mut svc = pipeline();
    let r = send(
        &mut svc,
        req(
            Method::Post,
            &["entities"],
            Some(payload(Some("original"), None, Some(false))),
        ),
    );
    let created = match r.body {
        Body::One(t) => t,
        _ => panic!("expected a task body"),
    };
    let id = id_text(created.id);

    let r = send(
        &mut svc,
        req(
            Method::Patch,
            &["entities", &id],
            Some(payload(None, Some("sneaky description"), Some(true))),
        ),
    );
    assert_eq!(r.status, 400);
    assert!(matches!(r.body, Body::Problem(DomainError::Validation)));

    let r = send(&mut svc, req(Method::Get, &["entities", &id], None));
    assert_eq!(r.status, 200);
    match r.body {
        Body::One(t) => {
            assert_eq!(t.title, "original");
            assert_eq!(t.description, None);
            assert!(!t.done);
        }
        _ => panic!("expected a task body"),
    }
}

#[test]
fn patch_with_title_updates_entity() {
    let mut svc = pipeline();
    let r = send(
        &mut svc,
        req(Method::Post, &["entities"], Some(payload(Some("before"), None, None))),
    );
    let created = match r.body {
        Body::One(t) => t,
        _ => panic!("expected a task body"),
    };
    let id = id_text(created.id);
    let r = send(
        &mut svc,
        req(
            Method::Patch,
            &["entities", &id],
            Some(payload(Some("after"), Some("now described"), Some(true))),
        ),
    );
    assert_eq!(r.status, 200);
    match r.body {
        Body::One(t) => {
            assert_eq!(t.id, created.id);
            assert_eq!(t.title, "after");
            assert_eq!(t.description.as_deref(), Some("now described"));
            assert!(t.done);
        }
        _ => panic!("expected a task body"),
    }
}

#[test]
fn patch_missing_entity_is_404() {
    let mut svc = pipeline();
    let r = send(
        &mut svc,
        req(
            Method::Patch,
            &["entities", "123e4567-e89b-12d3-a456-426614174000"],
            Some(payload(Some("title"), None, None)),
        ),
    );
    assert_eq!(r.status, 404);
}

#[test]
fn post_without_title_is_400() {
    let mut svc = pipeline();
    let r = send(
        &mut svc,
        req(Method::Post, &["entities"], Some(payload(None, Some("desc"), None))),
    );
    assert_eq!(r.status, 400);
    assert!(matches!(r.body, Body::Problem(DomainError::Validation)));
    let r = send(&mut svc, req(Method::Post, &["entities"], None));
    assert_eq!(r.status, 400);
}

#[test]
fn delete_removes_entity() {
    let mut svc = pipeline();
    let r = send(
        &mut svc,
        req(Method::Post, &["entities"], Some(payload(Some("to delete"), None, None))),
    );
    let created = match r.body {
        Body::One(t) => t,
        _ => panic!("expected a task body"),
    };
    let id = id_text(created.id);
    let r = send(&mut svc, req(Method::Delete, &["entities", &id], None));
    assert_eq!(r.status, 204);
    assert!(matches!(r.body, Body::Empty));
    let r = send(&mut svc, req(Method::Get, &["entities", &id], None));
    assert_eq!(r.status, 404);
    let r = send(&mut svc, req(Method::Delete, &["entities", &id], None));
    assert_eq!(r.status, 404);
}

#[test]
fn hundred_posts_store_hundred_distinct_entities() {
    let mut svc = pipeline();
    let mut ids: HashSet<u128> = HashSet::new();
    for i in 0..100 {
        let title = format!("task {}", i);
        let r = send(
            &mut svc,
            req(Method::Post, &["entities"], Some(payload(Some(&title), None, None))),
        );
        assert_eq!(r.status, 201);
        match r.body {
            Body::One(t) => {
                ids.insert(t.id);
            }
            _ => panic!("expected a task body"),
        }
    }
    assert_eq!(ids.len(), 100);
    let r = send(&mut svc, req(Method::Get, &["entities"], None));
    assert_eq!(r.status, 200);
    match r.body {
        Body::Many(ts) => assert_eq!(ts.len(), 100),
        _ => panic!("expected a list body"),
    }
}

#[test]
fn list_returns_tasks_in_storage_order() {
    let mut svc = pipeline();
    for title in ["first", "second", "third"] {
        let r = send(
            &mut svc,
            req(Method::Post, &["entities"], Some(payload(Some(title), None, None))),
        );
        assert_eq!(r.status, 201);
    }
    let r = send(&mut svc, req(Method::Get, &["entities"], None));
    match r.body {
        Body::Many(ts) => {
            assert_eq!(ts.len(), 3);
            assert_eq!(ts[0].title, "first");
            assert_eq!(ts[1].title, "second");
            assert_eq!(ts[2].title, "third");
        }
        _ => panic!("expected a list body"),
    }
}

#[test]
fn readiness_follows_the_handle() {
    let mut svc = pipeline();
    assert!(svc.poll_ready());
    let token = svc.inner.handle.acquire_for_request().unwrap();
    assert!(!svc.poll_ready());
    svc.inner.handle.release(token);
    assert!(svc.poll_ready());
    svc.inner.handle.close().unwrap();
    assert!(!svc.poll_ready());
}

#[test]
fn close_lifecycle_ordering() {
    let mut handle = ResourceHandle::new();
    let token = handle.acquire_for_request().unwrap();
    assert_eq!(handle.close(), Err(DomainError::ProtocolViolation));
    handle.release(token);
    assert_eq!(handle.close(), Ok(()));
    assert_eq!(handle.close(), Err(DomainError::ProtocolViolation));
    assert_eq!(
        handle.acquire_for_request().map(|_| ()),
        Err(DomainError::ResourceUnavailable)
    );
}

#[test]
fn closed_handle_surfaces_as_internal_error() {
    let mut handle = ResourceHandle::new();
    handle.close().unwrap();
    let mut svc = ConnectionLayer::new(7).layer(RouterService::new(routes(), handle));
    // The terminal service reports itself not ready, so drive the handler
    // directly: a closed handle is a 500-equivalent resource error.
    assert!(!svc.poll_ready());
    let mut ctx = Extensions::new();
    ctx.insert(RESOURCE_KEY, 7);
    let r = task_pipeline::handlers::list_tasks(&ctx, &mut svc.inner.handle);
    assert_eq!(r.map(|_| ()), Err(DomainError::ResourceUnavailable));
}

#[test]
fn handler_without_resource_entry_is_configuration_error() {
    let mut handle = ResourceHandle::new();
    let ctx = Extensions::new();
    let r = task_pipeline::handlers::get_task(&ctx, &mut handle, 5);
    assert_eq!(r.map(|_| ()), Err(DomainError::Configuration));
    let r = task_pipeline::handlers::list_tasks(&ctx, &mut handle);
    assert_eq!(r.map(|_| ()), Err(DomainError::Configuration));
}

#[test]
fn create_with_id_reports_collision_and_validation() {
    let mut handle = ResourceHandle::new();
    let mut ctx = Extensions::new();
    ctx.insert(RESOURCE_KEY, 7);
    let first =
        task_pipeline::handlers::create_task_with_id(&ctx, &mut handle, payload(Some("a"), None, None), 42);
    assert!(first.is_ok());
    let second =
        task_pipeline::handlers::create_task_with_id(&ctx, &mut handle, payload(Some("b"), None, None), 42);
    assert_eq!(second.map(|_| ()), Err(DomainError::ResourceUnavailable));
    let invalid =
        task_pipeline::handlers::create_task_with_id(&ctx, &mut handle, payload(None, None, None), 43);
    assert_eq!(invalid.map(|_| ()), Err(DomainError::Validation));
}

#[test]
fn rewrapped_pipeline_still_serves_requests() {
    let rs = RouterService::new(routes(), ResourceHandle::new());
    let mut svc = ConnectionLayer::new(9).layer(ConnectionLayer::new(7).layer(rs));
    assert!(svc.poll_ready());
    let r = svc.call(req(
        Method::Post,
        &["entities"],
        Some(payload(Some("doubly wrapped"), None, None)),
    ));
    assert_eq!(r.status, 201);
}

#[test]
fn error_status_table() {
    assert_eq!(error_status(&DomainError::Validation), 400);
    assert_eq!(error_status(&DomainError::NotFound), 404);
    assert_eq!(error_status(&DomainError::Configuration), 500);
    assert_eq!(error_status(&DomainError::ProtocolViolation), 500);
    assert_eq!(error_status(&DomainError::ResourceUnavailable), 500);
}
