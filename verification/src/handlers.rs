//! The terminal route handlers: each reads the injected resource entry from
//! the request's extension context, takes the handle's serialization lock,
//! performs its table operation, and releases the lock.
//!
//! Each handler's outcome is captured by a postcondition relation, reused by
//! the router's dispatch contract. A handler that finds no resource entry
//! fails with a configuration error; a closed or busy handle is reported as
//! the resource being unavailable.

use vstd::prelude::*;

use crate::errors::DomainError;
use crate::extensions::{Extensions, RESOURCE_KEY};
use crate::handle::{has_id, idx_of, store_wf, ResourceHandle, StoreView};
use crate::ids::fresh_task_id;
use crate::task::{clone_task, payload_is_valid, payload_valid, task_from, Task, TaskPayload, PayloadView, TaskView};

verus! {

/// The context carries an entry for the injected resource handle.
pub open spec fn ctx_has_resource(ctx: Map<u64, u64>) -> bool {
    ctx.contains_key(RESOURCE_KEY)
}

/// The mathematical value of a handler result carrying a task.
pub open spec fn task_res_view(r: Result<Task, DomainError>) -> Result<TaskView, DomainError> {
    match r {
        Ok(t) => Ok(t@),
        Err(e) => Err(e),
    }
}

/// The mathematical value of a handler result carrying a task list.
pub open spec fn list_res_view(r: Result<Vec<Task>, DomainError>) -> Result<
    Seq<TaskView>,
    DomainError,
> {
    match r {
        Ok(ts) => Ok(ts.deep_view()),
        Err(e) => Err(e),
    }
}

/// Outcome of listing: the store is untouched, and on success the result is
/// the whole table in storage order.
pub open spec fn list_post(
    ctx: Map<u64, u64>,
    pre: StoreView,
    post: StoreView,
    r: Result<Seq<TaskView>, DomainError>,
) -> bool {
    &&& post == pre
    &&& if !ctx_has_resource(ctx) {
        r == Err::<Seq<TaskView>, DomainError>(DomainError::Configuration)
    } else if !pre.is_open || pre.locked {
        r == Err::<Seq<TaskView>, DomainError>(DomainError::ResourceUnavailable)
    } else {
        r == Ok::<Seq<TaskView>, DomainError>(pre.table)
    }
}

/// Outcome of fetching by identifier: the store is untouched, and on success
/// the result is the stored task under that identifier.
pub open spec fn get_post(
    ctx: Map<u64, u64>,
    pre: StoreView,
    id: u128,
    post: StoreView,
    r: Result<TaskView, DomainError>,
) -> bool {
    &&& post == pre
    &&& if !ctx_has_resource(ctx) {
        r == Err::<TaskView, DomainError>(DomainError::Configuration)
    } else if !pre.is_open || pre.locked {
        r == Err::<TaskView, DomainError>(DomainError::ResourceUnavailable)
    } else if has_id(pre.table, id) {
        r == Ok::<TaskView, DomainError>(pre.table[idx_of(pre.table, id)])
    } else {
        r == Err::<TaskView, DomainError>(DomainError::NotFound)
    }
}

/// Outcome of creating under candidate identifier `id`: on success the new
/// task is appended; a candidate already stored reports the resource
/// unavailable; an invalid payload changes nothing.
pub open spec fn create_post(
    ctx: Map<u64, u64>,
    pre: StoreView,
    p: PayloadView,
    id: u128,
    post: StoreView,
    r: Result<TaskView, DomainError>,
) -> bool {
    if !ctx_has_resource(ctx) {
        r == Err::<TaskView, DomainError>(DomainError::Configuration) && post == pre
    } else if !payload_valid(p) {
        r == Err::<TaskView, DomainError>(DomainError::Validation) && post == pre
    } else if !pre.is_open || pre.locked {
        r == Err::<TaskView, DomainError>(DomainError::ResourceUnavailable) && post == pre
    } else if has_id(pre.table, id) {
        r == Err::<TaskView, DomainError>(DomainError::ResourceUnavailable) && post == pre
    } else {
        r == Ok::<TaskView, DomainError>(task_from(id, p)) && post == (StoreView {
            table: pre.table.push(task_from(id, p)),
            ..pre
        })
    }
}

/// Outcome of updating: on success the stored task under `id` is replaced,
/// field for field, by the valid payload; an invalid payload changes nothing
/// and is rejected before the identifier is looked up.
pub open spec fn update_post(
    ctx: Map<u64, u64>,
    pre: StoreView,
    id: u128,
    p: PayloadView,
    post: StoreView,
    r: Result<TaskView, DomainError>,
) -> bool {
    if !ctx_has_resource(ctx) {
        r == Err::<TaskView, DomainError>(DomainError::Configuration) && post == pre
    } else if !payload_valid(p) {
        r == Err::<TaskView, DomainError>(DomainError::Validation) && post == pre
    } else if !pre.is_open || pre.locked {
        r == Err::<TaskView, DomainError>(DomainError::ResourceUnavailable) && post == pre
    } else if !has_id(pre.table, id) {
        r == Err::<TaskView, DomainError>(DomainError::NotFound) && post == pre
    } else {
        r == Ok::<TaskView, DomainError>(task_from(id, p)) && post == (StoreView {
            table: pre.table.update(idx_of(pre.table, id), task_from(id, p)),
            ..pre
        })
    }
}

/// Outcome of deleting: on success the stored task under `id` is removed.
pub open spec fn delete_post(
    ctx: Map<u64, u64>,
    pre: StoreView,
    id: u128,
    post: StoreView,
    r: Result<(), DomainError>,
) -> bool {
    if !ctx_has_resource(ctx) {
        r == Err::<(), DomainError>(DomainError::Configuration) && post == pre
    } else if !pre.is_open || pre.locked {
        r == Err::<(), DomainError>(DomainError::ResourceUnavailable) && post == pre
    } else if !has_id(pre.table, id) {
        r == Err::<(), DomainError>(DomainError::NotFound) && post == pre
    } else {
        r == Ok::<(), DomainError>(()) && post == (StoreView {
            table: pre.table.remove(idx_of(pre.table, id)),
            ..pre
        })
    }
}

/// Lists all stored tasks.
pub fn list_tasks(ctx: &Extensions, handle: &mut ResourceHandle) -> (r: Result<
    Vec<Task>,
    DomainError,
>)
    requires
        store_wf(old(handle)@),
    ensures
        store_wf(final(handle)@),
        list_post(ctx.as_map(), old(handle)@, final(handle)@, list_res_view(r)),
{
    if ctx.get(RESOURCE_KEY).is_none() {
        return Err(DomainError::Configuration);
    }
    let token = match handle.acquire_for_request() {
        Ok(t) => t,
        Err(e) => {
            return Err(e);
        },
    };
    let all = handle.all_tasks();
    handle.release(token);
    Ok(all)
}

/// Fetches the task stored under `id`.
pub fn get_task(ctx: &Extensions, handle: &mut ResourceHandle, id: u128) -> (r: Result<
    Task,
    DomainError,
>)
    requires
        store_wf(old(handle)@),
    ensures
        store_wf(final(handle)@),
        get_post(ctx.as_map(), old(handle)@, id, final(handle)@, task_res_view(r)),
{
    if ctx.get(RESOURCE_KEY).is_none() {
        return Err(DomainError::Configuration);
    }
    let token = match handle.acquire_for_request() {
        Ok(t) => t,
        Err(e) => {
            return Err(e);
        },
    };
    let found = handle.find_task(id);
    handle.release(token);
    match found {
        Some(t) => Ok(t),
        None => Err(DomainError::NotFound),
    }
}

/// Creates a task under the caller-supplied candidate identifier.
pub fn create_task_with_id(
    ctx: &Extensions,
    handle: &mut ResourceHandle,
    payload: TaskPayload,
    id: u128,
) -> (r: Result<Task, DomainError>)
    requires
        store_wf(old(handle)@),
    ensures
        store_wf(final(handle)@),
        create_post(ctx.as_map(), old(handle)@, payload@, id, final(handle)@, task_res_view(r)),
{
    if ctx.get(RESOURCE_KEY).is_none() {
        return Err(DomainError::Configuration);
    }
    if !payload_is_valid(&payload) {
        return Err(DomainError::Validation);
    }
    let token = match handle.acquire_for_request() {
        Ok(t) => t,
        Err(e) => {
            return Err(e);
        },
    };
    let collision = handle.find_task(id);
    if collision.is_some() {
        handle.release(token);
        return Err(DomainError::ResourceUnavailable);
    }
    let t = Task {
        id,
        title: payload.title.unwrap(),
        description: payload.description,
        done: match payload.done {
            Some(d) => d,
            None => false,
        },
    };
    let stored = clone_task(&t);
    handle.insert_task(t);
    handle.release(token);
    Ok(stored)
}

/// Creates a task under a freshly generated identifier. The identifier is
/// drawn at random, so the exact outcome is stated for whatever candidate
/// was drawn: success appends a task with a previously absent identifier.
pub fn create_task(ctx: &Extensions, handle: &mut ResourceHandle, payload: TaskPayload) -> (r:
    Result<Task, DomainError>)
    requires
        store_wf(old(handle)@),
    ensures
        store_wf(final(handle)@),
        exists|id: u128|
            create_post(
                ctx.as_map(),
                old(handle)@,
                payload@,
                id,
                final(handle)@,
                task_res_view(r),
            ),
        r is Ok ==> !has_id(old(handle)@.table, r->Ok_0@.id) && final(handle)@.table == old(
            handle,
        )@.table.push(r->Ok_0@),
{
    let id = fresh_task_id();
    let r = create_task_with_id(ctx, handle, payload, id);
    proof {
        assert(create_post(ctx.as_map(), old(handle)@, payload@, id, handle@, task_res_view(r)));
    }
    r
}

/// Replaces the task stored under `id` with the valid payload's fields.
pub fn update_task(
    ctx: &Extensions,
    handle: &mut ResourceHandle,
    id: u128,
    payload: TaskPayload,
) -> (r: Result<Task, DomainError>)
    requires
        store_wf(old(handle)@),
    ensures
        store_wf(final(handle)@),
        update_post(ctx.as_map(), old(handle)@, id, payload@, final(handle)@, task_res_view(r)),
{
    if ctx.get(RESOURCE_KEY).is_none() {
        return Err(DomainError::Configuration);
    }
    if !payload_is_valid(&payload) {
        return Err(DomainError::Validation);
    }
    let token = match handle.acquire_for_request() {
        Ok(t) => t,
        Err(e) => {
            return Err(e);
        },
    };
    let t = Task {
        id,
        title: payload.title.unwrap(),
        description: payload.description,
        done: match payload.done {
            Some(d) => d,
            None => false,
        },
    };
    let stored = clone_task(&t);
    let replaced = handle.replace_task(t);
    handle.release(token);
    if replaced {
        Ok(stored)
    } else {
        Err(DomainError::NotFound)
    }
}

/// Removes the task stored under `id`.
pub fn delete_task(ctx: &Extensions, handle: &mut ResourceHandle, id: u128) -> (r: Result<
    (),
    DomainError,
>)
    requires
        store_wf(old(handle)@),
    ensures
        store_wf(final(handle)@),
        delete_post(ctx.as_map(), old(handle)@, id, final(handle)@, r),
{
    if ctx.get(RESOURCE_KEY).is_none() {
        return Err(DomainError::Configuration);
    }
    let token = match handle.acquire_for_request() {
        Ok(t) => t,
        Err(e) => {
            return Err(e);
        },
    };
    let removed = handle.remove_task(id);
    handle.release(token);
    match removed {
        Some(_) => Ok(()),
        None => Err(DomainError::NotFound),
    }
}

} // verus!
