//! The user's profile and preferences.

use vstd::prelude::*;

verus! {

#[derive(Debug, Clone)]
pub struct UserProfile {
    pub username: String,
    pub email: Option<String>,
    pub theme: String,
}

impl UserProfile {
    pub fn new(username: String, email: Option<String>, theme: String) -> (r: Self)
        ensures
            r.username == username,
            r.email == email,
            r.theme == theme,
    {
        UserProfile { username, email, theme }
    }

    /// Changes each field that is given; the others stay.
    pub fn update(&mut self, username: Option<String>, email: Option<String>, theme: Option<String>)
        ensures
            final(self).username == (match username { Some(u) => u, None => old(self).username }),
            final(self).email == (match email { Some(e) => Some(e), None => old(self).email }),
            final(self).theme == (match theme { Some(t) => t, None => old(self).theme }),
    {
        if let Some(new_username) = username {
            self.username = new_username;
        }
        if let Some(new_email) = email {
            self.email = Some(new_email);
        }
        if let Some(new_theme) = theme {
            self.theme = new_theme;
        }
    }
}

} // verus!
