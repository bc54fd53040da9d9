use vstd::prelude::*;

use crate::history::{is_create_step, is_delete_step, is_keep_step};
use crate::store::{created_record, is_listing, next_id, StoreError, UserStore};
use crate::user::{apply_update, CreateUserRequest, UpdateUserRequest, User, UserView};

verus! {

pub const STATUS_OK: u16 = 200;

pub const STATUS_CREATED: u16 = 201;

pub const STATUS_BAD_REQUEST: u16 = 400;

pub const STATUS_NOT_FOUND: u16 = 404;

pub const STATUS_INTERNAL_ERROR: u16 = 500;

/// The envelope that wraps every result: `data` is present on success only.
#[derive(Clone, Debug)]
pub struct Response<T> {
    pub success: bool,
    pub message: String,
    pub data: Option<T>,
}

/// An envelope together with the HTTP status code it is sent with.
#[derive(Clone, Debug)]
pub struct Reply<T> {
    pub status: u16,
    pub body: Response<T>,
}

/// What the root path describes: the API version and its endpoints.
#[derive(Clone, Debug)]
pub struct HomeInfo {
    pub version: String,
    pub endpoints: Vec<String>,
}

pub open spec fn msg_welcome() -> Seq<char> {
    "Добро пожаловать в API веб-сервера на Rust!"@
}

pub open spec fn msg_users_listed() -> Seq<char> {
    "Пользователи успешно получены"@
}

pub open spec fn msg_user_found() -> Seq<char> {
    "Пользователь найден"@
}

pub open spec fn msg_user_not_found() -> Seq<char> {
    "Пользователь не найден"@
}

pub open spec fn msg_fields_required() -> Seq<char> {
    "Имя и email обязательны"@
}

pub open spec fn msg_ids_exhausted() -> Seq<char> {
    "Свободных ID не осталось"@
}

pub open spec fn msg_user_created() -> Seq<char> {
    "Пользователь успешно создан"@
}

pub open spec fn msg_user_updated() -> Seq<char> {
    "Пользователь успешно обновлен"@
}

pub open spec fn msg_user_deleted() -> Seq<char> {
    "Пользователь успешно удален"@
}

pub open spec fn api_version() -> Seq<char> {
    "1.0.0"@
}

pub open spec fn api_endpoints() -> Seq<Seq<char>> {
    seq![
        "GET / - Главная страница"@,
        "GET /users - Получить всех пользователей"@,
        "GET /users/{id} - Получить пользователя по ID"@,
        "POST /users - Создать нового пользователя"@,
        "PUT /users/{id} - Обновить пользователя"@,
        "DELETE /users/{id} - Удалить пользователя"@,
    ]
}

/// A successful reply carrying `data`.
fn success<T>(status: u16, message: &str, data: T) -> (r: Reply<T>)
    ensures
        r.status == status,
        r.body.success,
        r.body.message@ == message@,
        r.body.data == Some(data),
{
    Reply { status, body: Response { success: true, message: message.to_string(), data: Some(data) } }
}

/// A reply with no data: a failure, or a success that has nothing to return.
fn bare<T>(status: u16, ok: bool, message: &str) -> (r: Reply<T>)
    ensures
        r.status == status,
        r.body.success == ok,
        r.body.message@ == message@,
        r.body.data is None,
{
    Reply { status, body: Response { success: ok, message: message.to_string(), data: None } }
}

/// The root path: a welcome message with the API version and its endpoints.
pub fn home() -> (r: Reply<HomeInfo>)
    ensures
        r.status == STATUS_OK,
        r.body.success,
        r.body.message@ == msg_welcome(),
        match r.body.data {
            Some(h) => h.version@ == api_version() && h.endpoints@.map_values(|s: String| s@)
                == api_endpoints(),
            None => false,
        },
{
    let mut endpoints: Vec<String> = Vec::new();
    endpoints.push("GET / - Главная страница".to_string());
    endpoints.push("GET /users - Получить всех пользователей".to_string());
    endpoints.push("GET /users/{id} - Получить пользователя по ID".to_string());
    endpoints.push("POST /users - Создать нового пользователя".to_string());
    endpoints.push("PUT /users/{id} - Обновить пользователя".to_string());
    endpoints.push("DELETE /users/{id} - Удалить пользователя".to_string());
    let info = HomeInfo { version: "1.0.0".to_string(), endpoints };
    assert(info.endpoints@.map_values(|s: String| s@) =~= api_endpoints());
    success(STATUS_OK, "Добро пожаловать в API веб-сервера на Rust!", info)
}

/// Lists every record.
pub fn get_users(store: &UserStore) -> (r: Reply<Vec<User>>)
    requires
        store.well_formed(),
    ensures
        r.status == STATUS_OK,
        r.body.success,
        r.body.message@ == msg_users_listed(),
        match r.body.data {
            Some(v) => is_listing(store@, v@),
            None => false,
        },
{
    let users = store.list();
    success(STATUS_OK, "Пользователи успешно получены", users)
}

/// Looks up the record with id `id`: 200 with the record, or 404.
pub fn get_user_by_id(store: &UserStore, id: u32) -> (r: Reply<User>)
    requires
        store.well_formed(),
    ensures
        store@.contains_key(id) ==> {
            &&& r.status == STATUS_OK
            &&& r.body.success
            &&& r.body.message@ == msg_user_found()
            &&& match r.body.data {
                Some(u) => u@ == store@[id],
                None => false,
            }
        },
        !store@.contains_key(id) ==> {
            &&& r.status == STATUS_NOT_FOUND
            &&& !r.body.success
            &&& r.body.message@ == msg_user_not_found()
            &&& r.body.data is None
        },
{
    match store.get_by_id(id) {
        Some(u) => success(STATUS_OK, "Пользователь найден", u),
        None => bare(STATUS_NOT_FOUND, false, "Пользователь не найден"),
    }
}

/// Creates a record stamped `created_at`: 201 with the new record, whose id
/// exceeds every id in the table before, or 400 when a required field is
/// empty, in which case the table is left as it was.
pub fn create_user(store: &mut UserStore, req: CreateUserRequest, created_at: String) -> (r: Reply<
    User,
>)
    requires
        old(store).well_formed(),
    ensures
        final(store).well_formed(),
        r.status == STATUS_CREATED <==> is_create_step(old(store)@, final(store)@),
        r.status != STATUS_CREATED ==> final(store)@ == old(store)@,
        req.is_valid() && next_id(old(store)@) <= u32::MAX ==> {
            &&& r.status == STATUS_CREATED
            &&& r.body.success
            &&& r.body.message@ == msg_user_created()
            &&& match r.body.data {
                Some(u) => {
                    &&& u@ == created_record(
                        old(store)@,
                        req.name@,
                        req.email@,
                        req.age,
                        created_at@,
                    )
                    &&& final(store)@ == old(store)@.insert(u.id, u@)
                    &&& forall|k: u32| #[trigger] old(store)@.contains_key(k) ==> k < u.id
                },
                None => false,
            }
        },
        !req.is_valid() ==> {
            &&& r.status == STATUS_BAD_REQUEST
            &&& !r.body.success
            &&& r.body.message@ == msg_fields_required()
            &&& r.body.data is None
            &&& final(store)@ == old(store)@
            &&& final(store)@.len() == old(store)@.len()
        },
        req.is_valid() && next_id(old(store)@) > u32::MAX ==> {
            &&& r.status == STATUS_INTERNAL_ERROR
            &&& !r.body.success
            &&& r.body.message@ == msg_ids_exhausted()
            &&& r.body.data is None
            &&& final(store)@ == old(store)@
        },
{
    let ghost before = store@;
    proof {
        lemma_no_create_step_to_itself(before);
    }
    match store.create(req, created_at) {
        Ok(u) => success(STATUS_CREATED, "Пользователь успешно создан", u),
        Err(StoreError::Validation) => bare(STATUS_BAD_REQUEST, false, "Имя и email обязательны"),
        Err(_) => bare(STATUS_INTERNAL_ERROR, false, "Свободных ID не осталось"),
    }
}

/// Applies a partial update: 200 with the updated record, or 404.
pub fn update_user(store: &mut UserStore, id: u32, req: UpdateUserRequest) -> (r: Reply<User>)
    requires
        old(store).well_formed(),
    ensures
        final(store).well_formed(),
        is_keep_step(old(store)@, final(store)@),
        old(store)@.contains_key(id) ==> {
            &&& r.status == STATUS_OK
            &&& r.body.success
            &&& r.body.message@ == msg_user_updated()
            &&& final(store)@ == old(store)@.insert(id, apply_update(old(store)@[id], req))
            &&& match r.body.data {
                Some(u) => u@ == apply_update(old(store)@[id], req),
                None => false,
            }
        },
        !old(store)@.contains_key(id) ==> {
            &&& r.status == STATUS_NOT_FOUND
            &&& !r.body.success
            &&& r.body.message@ == msg_user_not_found()
            &&& r.body.data is None
            &&& final(store)@ == old(store)@
        },
{
    match store.update(id, &req) {
        Ok(u) => success(STATUS_OK, "Пользователь успешно обновлен", u),
        Err(_) => bare(STATUS_NOT_FOUND, false, "Пользователь не найден"),
    }
}

/// Removes a record: 200 with no data, or 404.
pub fn delete_user(store: &mut UserStore, id: u32) -> (r: Reply<User>)
    requires
        old(store).well_formed(),
    ensures
        final(store).well_formed(),
        r.body.data is None,
        r.status == STATUS_OK <==> is_delete_step(old(store)@, final(store)@),
        r.status != STATUS_OK ==> final(store)@ == old(store)@,
        old(store)@.contains_key(id) ==> {
            &&& r.status == STATUS_OK
            &&& r.body.success
            &&& r.body.message@ == msg_user_deleted()
            &&& final(store)@ == old(store)@.remove(id)
        },
        !old(store)@.contains_key(id) ==> {
            &&& r.status == STATUS_NOT_FOUND
            &&& !r.body.success
            &&& r.body.message@ == msg_user_not_found()
            &&& final(store)@ == old(store)@
        },
{
    proof {
        lemma_no_delete_step_to_itself(store@);
    }
    match store.delete(id) {
        Ok(()) => bare(STATUS_OK, true, "Пользователь успешно удален"),
        Err(_) => bare(STATUS_NOT_FOUND, false, "Пользователь не найден"),
    }
}

/// No create leaves a table as it was.
proof fn lemma_no_create_step_to_itself(m: Map<u32, UserView>)
    ensures
        !is_create_step(m, m),
{
    if is_create_step(m, m) {
        let (k, u) = choose|k: u32, u: UserView| !m.contains_key(k) && m == m.insert(k, u);
        assert(m.insert(k, u).contains_key(k));
    }
}

/// No delete leaves a table as it was.
proof fn lemma_no_delete_step_to_itself(m: Map<u32, UserView>)
    ensures
        !is_delete_step(m, m),
{
    if is_delete_step(m, m) {
        let k = choose|k: u32| m.contains_key(k) && m == m.remove(k);
        assert(!m.remove(k).contains_key(k));
    }
}

} // verus!
