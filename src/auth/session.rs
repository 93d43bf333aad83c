use vstd::prelude::*;

verus! {

/// A signed-in user's session.
#[derive(Debug, Clone)]
pub struct UserSession {
    pub user_id: String,
    pub is_authenticated: bool,
}

impl UserSession {
    /// An authenticated session of `user_id`.
    pub fn new(user_id: String) -> (r: Self)
        ensures
            r.user_id == user_id,
            r.is_authenticated,
    {
        UserSession { user_id, is_authenticated: true }
    }
}

} // verus!
