//! The `/auth` page's state: two forms, what the reader typed into them, and
//! whatever went wrong, beside the field it went wrong in and under the form
//! it came from.

use vstd::prelude::*;

use crate::db::cluster::str_view;
use crate::text::{chars_of, same, string_of, trim, trimmed};

verus! {

/// What the reader typed into one form, and each complaint about it.
#[derive(Debug, Clone, PartialEq, Eq)]
pub struct Fields {
    pub display_name: String,
    pub handle: String,
    pub email: String,
    pub error_display_name: String,
    pub error_email: String,
    pub error_handle: String,
    pub error_password: String,
    pub error_form: String,
}

/// [`Fields`], as the specifications speak of it.
pub struct FieldsView {
    pub display_name: Seq<char>,
    pub handle: Seq<char>,
    pub email: Seq<char>,
    pub error_display_name: Seq<char>,
    pub error_email: Seq<char>,
    pub error_handle: Seq<char>,
    pub error_password: Seq<char>,
    pub error_form: Seq<char>,
}

impl View for Fields {
    type V = FieldsView;

    open spec fn view(&self) -> FieldsView {
        FieldsView {
            display_name: self.display_name@,
            handle: self.handle@,
            email: self.email@,
            error_display_name: self.error_display_name@,
            error_email: self.error_email@,
            error_handle: self.error_handle@,
            error_password: self.error_password@,
            error_form: self.error_form@,
        }
    }
}

impl Fields {
    /// A form nobody has typed into.
    pub fn blank() -> (r: Fields)
        ensures
            r@ == (FieldsView {
                display_name: Seq::empty(),
                handle: Seq::empty(),
                email: Seq::empty(),
                error_display_name: Seq::empty(),
                error_email: Seq::empty(),
                error_handle: Seq::empty(),
                error_password: Seq::empty(),
                error_form: Seq::empty(),
            }),
    {
        Fields {
            display_name: String::new(),
            handle: String::new(),
            email: String::new(),
            error_display_name: String::new(),
            error_email: String::new(),
            error_handle: String::new(),
            error_password: String::new(),
            error_form: String::new(),
        }
    }
}

/// The page: the reader's theme, the build, where to go afterwards, which
/// form is open, the two forms, and the developer sign-in markup (empty
/// where the build or the configuration does not serve it).
#[derive(Debug, Clone, PartialEq, Eq)]
pub struct AuthPage {
    pub theme: &'static str,
    pub version: String,
    /// The same-origin path to land on once the reader is signed in.
    pub next: String,
    /// The form that opens, which is the one the reader last used.
    pub focus: &'static str,
    pub sign_in: Fields,
    pub register: Fields,
    pub dev_button: &'static str,
    pub dev_form: &'static str,
}

/// Why a form post failed, as the page reads it.
#[derive(Debug, Clone, PartialEq, Eq)]
pub enum Failure {
    /// The request's shape was wrong: the field it is about, and what is
    /// wrong with it in the reader's terms.
    Invalid { field: &'static str, message: String },
    /// The form could not be read at all.
    Malformed,
    /// Anything else. A wrong password, an address nobody holds and a
    /// disabled identity are one refusal, and read as one sentence.
    Refused,
}

/// The form a failure belongs to: the registration form when the reader was
/// registering, and the sign-in form otherwise.
pub open spec fn in_focus(p: AuthPage) -> FieldsView {
    if p.focus@ == "register"@ { p.register@ } else { p.sign_in@ }
}

/// A form with `message` set on the error slot for `field`; a field the page
/// has no slot for puts it on the form as a whole.
pub open spec fn with_error(f: FieldsView, field: Seq<char>, message: Seq<char>) -> FieldsView {
    if field == "display name"@ {
        FieldsView { error_display_name: message, ..f }
    } else if field == "email"@ {
        FieldsView { error_email: message, ..f }
    } else if field == "handle"@ {
        FieldsView { error_handle: message, ..f }
    } else if field == "password"@ {
        FieldsView { error_password: message, ..f }
    } else {
        FieldsView { error_form: message, ..f }
    }
}

/// Where a failure is written, and what is written there.
pub open spec fn refusal_of(failure: Failure) -> (Seq<char>, Seq<char>) {
    match failure {
        Failure::Invalid { field, message } => (field@, message@),
        Failure::Malformed => (""@, "that form could not be read"@),
        Failure::Refused => (""@, "that did not work"@),
    }
}

/// The status a failure answers with: `422` for a request whose shape was
/// wrong, `403` for the uniform refusal.
pub open spec fn refusal_status(failure: Failure) -> u16 {
    match failure {
        Failure::Refused => 403,
        _ => 422,
    }
}

/// Write `message` into the error slot for `field`.
fn place(fields: &mut Fields, field: &str, message: String)
    ensures
        final(fields)@ == with_error(old(fields)@, field@, message@),
{
    if same(field, "display name") {
        fields.error_display_name = message;
    } else if same(field, "email") {
        fields.error_email = message;
    } else if same(field, "handle") {
        fields.error_handle = message;
    } else if same(field, "password") {
        fields.error_password = message;
    } else {
        fields.error_form = message;
    }
}

impl AuthPage {
    /// A fresh page with the sign-in form open and nothing typed.
    pub fn new(theme: &'static str, version: String, next: String, dev: (&'static str, &'static str)) -> (r: AuthPage)
        ensures
            r.theme == theme,
            r.version@ == version@,
            r.next@ == next@,
            r.focus@ == "sign-in"@,
            r.sign_in@ == Fields::blank_view(),
            r.register@ == Fields::blank_view(),
            r.dev_button == dev.0,
            r.dev_form == dev.1,
    {
        AuthPage {
            theme,
            version,
            next,
            focus: "sign-in",
            sign_in: Fields::blank(),
            register: Fields::blank(),
            dev_button: dev.0,
            dev_form: dev.1,
        }
    }

    /// Prefill the sign-in address from a hint: a suggestion in a field the
    /// reader may overwrite, trimmed, and ignored when blank.
    pub fn prefill(&mut self, hint: Option<&str>)
        ensures
            match str_view(hint) {
                Some(h) if trim(h).len() > 0 => *final(self) == (AuthPage {
                    sign_in: Fields { email: final(self).sign_in.email, ..old(self).sign_in },
                    ..*old(self)
                }) && final(self).sign_in.email@ == trim(h),
                _ => *final(self) == *old(self),
            },
    {
        if let Some(h) = hint {
            let c = chars_of(h);
            let t = trimmed(&c);
            if t.len() > 0 {
                assert(t@.subrange(0, t@.len() as int) =~= t@);
                self.sign_in.email = string_of(&t, 0, t.len());
            }
        }
    }

    /// Open the registration form again with what the reader typed into
    /// it, so a typo is a correction rather than a retype. The password is
    /// not among them: a form has no slot that could echo it back.
    pub fn registering(&mut self, display_name: String, handle: String, email: String)
        ensures
            final(self).focus@ == "register"@,
            final(self).register@ == (FieldsView {
                display_name: display_name@,
                handle: handle@,
                email: email@,
                ..old(self).register@
            }),
            final(self).sign_in == old(self).sign_in,
            final(self).next == old(self).next,
            final(self).version == old(self).version,
            final(self).theme == old(self).theme,
            final(self).dev_button == old(self).dev_button,
            final(self).dev_form == old(self).dev_form,
    {
        self.focus = "register";
        self.register.display_name = display_name;
        self.register.handle = handle;
        self.register.email = email;
    }

    /// The form the reader was in.
    pub fn focused(&mut self) -> (r: &mut Fields)
        ensures
            old(self).focus@ == "register"@ ==> *r == old(self).register
                && *final(self) == (AuthPage { register: *final(r), ..*old(self) }),
            old(self).focus@ != "register"@ ==> *r == old(self).sign_in
                && *final(self) == (AuthPage { sign_in: *final(r), ..*old(self) }),
    {
        if same(self.focus, "register") {
            &mut self.register
        } else {
            &mut self.sign_in
        }
    }

    /// Place a failure on the field it belongs to, in the form it came
    /// from, or on that form as a whole; the other form is left as it was.
    pub fn refuse(self, failure: &Failure) -> (r: (u16, AuthPage))
        ensures
            r.0 == refusal_status(*failure),
            in_focus(r.1) == with_error(in_focus(self), refusal_of(*failure).0, refusal_of(*failure).1),
            self.focus@ == "register"@ ==> r.1.sign_in@ == self.sign_in@,
            self.focus@ != "register"@ ==> r.1.register@ == self.register@,
            r.1.focus == self.focus,
            r.1.next@ == self.next@,
            r.1.version@ == self.version@,
            r.1.theme == self.theme,
            r.1.dev_button == self.dev_button,
            r.1.dev_form == self.dev_form,
    {
        proof {
            reveal_strlit("");
            reveal_strlit("display name");
            reveal_strlit("email");
            reveal_strlit("handle");
            reveal_strlit("password");
        }
        let (field, message, status): (&str, String, u16) = match failure {
            Failure::Invalid { field, message } => (*field, message.clone(), 422),
            Failure::Malformed => ("", String::from_str("that form could not be read"), 422),
            Failure::Refused => ("", String::from_str("that did not work"), 403),
        };
        let mut page = self;
        place(page.focused(), field, message);
        (status, page)
    }
}

impl Fields {
    pub open spec fn blank_view() -> FieldsView {
        FieldsView {
            display_name: Seq::empty(),
            handle: Seq::empty(),
            email: Seq::empty(),
            error_display_name: Seq::empty(),
            error_email: Seq::empty(),
            error_handle: Seq::empty(),
            error_password: Seq::empty(),
            error_form: Seq::empty(),
        }
    }
}

} // verus!
