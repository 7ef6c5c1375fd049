//! Error values of the pure logic and of the HTTP layer.

use vstd::prelude::*;

verus! {

/// Error of the shared naming/validation/compose logic.
#[derive(Debug, Clone, PartialEq, Eq)]
pub enum CoreError {
    Validation(String),
    ComposeParse(String),
}

pub open spec fn compose_parse_prefix() -> Seq<char> {
    "compose_contentの解析に失敗しました: "@
}

/// Text shown for a `CoreError`.
pub open spec fn core_error_text(e: CoreError) -> Seq<char> {
    match e {
        CoreError::Validation(m) => m@,
        CoreError::ComposeParse(m) => compose_parse_prefix() + m@,
    }
}

impl CoreError {
    /// The message a user sees for this error.
    pub fn message(&self) -> (r: String)
        ensures
            r@ == core_error_text(*self),
    {
        match self {
            CoreError::Validation(m) => m.clone(),
            CoreError::ComposeParse(m) => {
                let mut s = crate::text::to_owned_str("compose_contentの解析に失敗しました: ");
                crate::text::push_str(&mut s, m.as_str());
                s
            },
        }
    }
}


/// One invalid input field and what is wrong with it.
#[derive(Debug, Clone)]
pub struct FieldError {
    pub field: String,
    pub message: String,
}

impl View for FieldError {
    type V = (Seq<char>, Seq<char>);

    open spec fn view(&self) -> (Seq<char>, Seq<char>) {
        (self.field@, self.message@)
    }
}

pub open spec fn field_errors_view(v: Seq<FieldError>) -> Seq<(Seq<char>, Seq<char>)> {
    v.map_values(|e: FieldError| e@)
}

/// Error of any layer of the server, with its HTTP status and error code.
#[derive(Debug)]
pub enum AppError {
    Unauthorized,
    NotFound(String),
    Validation(Vec<FieldError>),
    Conflict(String),
    Unprocessable(String),
    Internal(String),
    BuildFailed(String),
}

pub open spec fn app_error_code(e: AppError) -> Seq<char> {
    match e {
        AppError::Unauthorized => "UNAUTHORIZED"@,
        AppError::NotFound(_) => "NOT_FOUND"@,
        AppError::Validation(_) => "VALIDATION_ERROR"@,
        AppError::Conflict(_) => "CONFLICT"@,
        AppError::Unprocessable(_) => "UNPROCESSABLE"@,
        AppError::Internal(_) => "INTERNAL_ERROR"@,
        AppError::BuildFailed(_) => "BUILD_FAILED"@,
    }
}

pub open spec fn app_error_status(e: AppError) -> u16 {
    match e {
        AppError::Unauthorized => 401,
        AppError::NotFound(_) => 404,
        AppError::Validation(_) => 400,
        AppError::Conflict(_) => 409,
        AppError::Unprocessable(_) => 422,
        AppError::Internal(_) => 500,
        AppError::BuildFailed(_) => 422,
    }
}

pub open spec fn app_error_message(e: AppError) -> Seq<char> {
    match e {
        AppError::Unauthorized => "認証に失敗しました"@,
        AppError::NotFound(name) => "サービス '"@ + name@ + "' が見つかりません"@,
        AppError::Validation(_) => "入力内容に誤りがあります"@,
        AppError::Conflict(m) => m@,
        AppError::Unprocessable(m) => m@,
        AppError::Internal(m) => m@,
        AppError::BuildFailed(m) => "ビルドまたはpushに失敗しました: "@ + m@,
    }
}

/// `Err(AppError::Validation(..))` whose field errors are exactly `errs`.
pub open spec fn is_validation_error<T>(r: Result<T, AppError>, errs: Seq<(Seq<char>, Seq<char>)>) -> bool {
    r matches Err(AppError::Validation(v)) && field_errors_view(v@) == errs
}

/// `Ok(())` when `errs` is empty, else the validation error listing them.
pub open spec fn validation_outcome(r: Result<(), AppError>, errs: Seq<(Seq<char>, Seq<char>)>) -> bool {
    if errs.len() == 0 {
        r is Ok
    } else {
        is_validation_error(r, errs)
    }
}

/// `Ok(())` for an empty list, the validation error otherwise.
pub fn outcome_of(errors: Vec<FieldError>) -> (r: Result<(), AppError>)
    ensures
        validation_outcome(r, field_errors_view(errors@)),
{
    if errors.len() == 0 {
        Ok(())
    } else {
        Err(AppError::Validation(errors))
    }
}

/// Appends one field error.
pub fn push_error(errors: &mut Vec<FieldError>, field: String, message: String)
    ensures
        field_errors_view(final(errors)@) == field_errors_view(old(errors)@).push((field@, message@)),
{
    errors.push(FieldError { field, message });
    assert(field_errors_view(errors@) =~= field_errors_view(old(errors)@).push((field@, message@)));
}

/// Appends a list of field errors.
pub fn append_errors(errors: &mut Vec<FieldError>, more: Vec<FieldError>)
    ensures
        field_errors_view(final(errors)@) == field_errors_view(old(errors)@) + field_errors_view(more@),
{
    let ghost m0 = more@;
    let mut more = more;
    errors.append(&mut more);
    assert(field_errors_view(errors@) =~= field_errors_view(old(errors)@) + field_errors_view(m0));
}

impl AppError {
    /// A validation error about a single field.
    pub fn validation_single(field: String, message: String) -> (r: AppError)
        ensures
            r matches AppError::Validation(v) && field_errors_view(v@) == seq![(field@, message@)],
    {
        let mut v: Vec<FieldError> = Vec::new();
        v.push(FieldError { field, message });
        assert(field_errors_view(v@) =~= seq![(v@[0].field@, v@[0].message@)]);
        AppError::Validation(v)
    }

    /// The machine-readable code of the error kind.
    pub fn code(&self) -> (r: &'static str)
        ensures
            r@ == app_error_code(*self),
    {
        match self {
            AppError::Unauthorized => "UNAUTHORIZED",
            AppError::NotFound(_) => "NOT_FOUND",
            AppError::Validation(_) => "VALIDATION_ERROR",
            AppError::Conflict(_) => "CONFLICT",
            AppError::Unprocessable(_) => "UNPROCESSABLE",
            AppError::Internal(_) => "INTERNAL_ERROR",
            AppError::BuildFailed(_) => "BUILD_FAILED",
        }
    }

    /// The HTTP status code of the error kind.
    pub fn status(&self) -> (r: u16)
        ensures
            r == app_error_status(*self),
    {
        match self {
            AppError::Unauthorized => 401,
            AppError::NotFound(_) => 404,
            AppError::Validation(_) => 400,
            AppError::Conflict(_) => 409,
            AppError::Unprocessable(_) => 422,
            AppError::Internal(_) => 500,
            AppError::BuildFailed(_) => 422,
        }
    }

    /// The human-readable message of the error.
    pub fn message(&self) -> (r: String)
        ensures
            r@ == app_error_message(*self),
    {
        match self {
            AppError::Unauthorized => crate::text::to_owned_str("認証に失敗しました"),
            AppError::NotFound(name) => {
                let mut m = crate::text::to_owned_str("サービス '");
                crate::text::push_str(&mut m, name.as_str());
                crate::text::push_str(&mut m, "' が見つかりません");
                m
            },
            AppError::Validation(_) => crate::text::to_owned_str("入力内容に誤りがあります"),
            AppError::Conflict(m) => m.clone(),
            AppError::Unprocessable(m) => m.clone(),
            AppError::Internal(m) => m.clone(),
            AppError::BuildFailed(m) => {
                let mut t = crate::text::to_owned_str("ビルドまたはpushに失敗しました: ");
                crate::text::push_str(&mut t, m.as_str());
                t
            },
        }
    }

    /// A shared-logic error becomes a validation error on the field `_`.
    pub fn from_core(err: CoreError) -> (r: AppError)
        ensures
            r matches AppError::Validation(v) && field_errors_view(v@) == seq![
                ("_"@, core_error_text(err)),
            ],
    {
        let m = err.message();
        AppError::validation_single(crate::text::to_owned_str("_"), m)
    }
}

} // verus!
