# rust_api_ddd

The domain of an admin backend (menus, master data, roles, permissions and
system settings), written in Verus so that its rules carry proofs.

## Layout

- `src/` — the verified library.
  - `errors.rs`, `text.rs`: the error answered to clients, and the text
    primitives (trimming, whitespace, decimal rendering, lowercase search).
  - `modules/common.rs`: cache keys, audit entries, the `Outcome` of a
    mutation, the cache-aside read and the generic delete.
  - `modules/menu/`: menu names and slugs, the admin list (search and
    page), nesting into a tree, visibility by permission, cycle checks on
    reparenting, and the service steps.
  - `modules/masters/`, `modules/role/`, `modules/permission/`,
    `modules/setting/`: value objects, errors and service steps of each
    module; `role/sync.rs` reconciles a role's permission ids.
- `app/` — the HTTP service around the library: Axum handlers and routes,
  SQLx repositories, an in-process cache and the audit-trail writer. It
  performs the store and cache calls that each service step asks for and
  hands the results back to the next step.
- `tests/` — tests of the library through its public API.

## How a service operation runs

Each operation that alternates store calls and decisions is a chain of
steps. A `start_*` function returns what to do first; the app performs it
and passes the result to the step's `on_*` method, which returns what to do
next, until a `Finish` carries an `Outcome`: the audit entry to record, the
cache keys to evict, the users whose authorization snapshot to refresh, and
the reply. Every step's contract states exactly which call comes next and
with which arguments, and which error ends the operation.

## Laws proved

- Sorting menus by `order_index` is stable and ordered; nesting yields a
  forest whose top level is the parentless menus, in which every node shows
  a menu of the input with correctly ordered children, and, when ids are
  unique, every node carries all its children.
- The visible tree only shows menus the caller can see.
- A reparenting allowed by the cycle check keeps every parent chain finite;
  one it refuses would close a cycle.
- The reconciled permission ids are sorted and free of duplicates.
- Different ids never share a cache key.
