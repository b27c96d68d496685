//! Volume shadow copies, for files that are locked.
//!
//! The snapshot itself is not made yet: once the drive is known, asking for one
//! says so.

use vstd::prelude::*;
use vstd::string::*;

verus! {

/// What a path starts with.
pub enum FirstComponent {
    /// The path is empty.
    Missing,
    /// A prefix, such as a drive letter with its colon.
    Prefix(String),
    /// Anything else.
    Other,
}

/// A context for shadow copies.
pub struct VssContext {
    initialized: bool,
}

/// The drive that a path names, or why there is none.
pub open spec fn drive_of(first: FirstComponent) -> std::result::Result<Seq<char>, Seq<char>> {
    match first {
        FirstComponent::Missing => Err("Ruta vacía o inválida"@),
        FirstComponent::Prefix(text) => Ok(text@),
        FirstComponent::Other => Err("No se pudo determinar la letra de la unidad"@),
    }
}

/// The drive that a path names.
pub fn get_drive_letter(first: &FirstComponent) -> (letter: std::result::Result<String, String>)
    ensures
        match letter {
            Ok(text) => drive_of(*first) == Ok::<Seq<char>, Seq<char>>(text@),
            Err(message) => drive_of(*first) == Err::<Seq<char>, Seq<char>>(message@),
        },
{
    match first {
        FirstComponent::Missing => Err("Ruta vacía o inválida".to_owned()),
        FirstComponent::Prefix(text) => Ok(text.clone()),
        FirstComponent::Other => Err("No se pudo determinar la letra de la unidad".to_owned()),
    }
}

/// Why there is no shadow copy of the volume that a path lies on.
pub open spec fn shadow_copy_fault(initialized: bool, first: FirstComponent) -> Seq<char> {
    if !initialized {
        "VSS Context not initialized"@
    } else {
        match drive_of(first) {
            Err(message) => message,
            Ok(drive) =>
                "VSS infrastructure ready but full COM implementation requires running on Windows with Admin privileges. Drive detected: "@
                + drive + ". To complete this, integrate IVssBackupComponents."@,
        }
    }
}

impl VssContext {
    /// Whether COM is ready.
    pub closed spec fn initialized(self) -> bool {
        self.initialized
    }

    /// A context; `com_ready` says whether COM could be initialised.
    pub fn new(com_ready: bool) -> (context: std::result::Result<Self, String>)
        ensures
            match context {
                Ok(c) => com_ready && c.initialized(),
                Err(message) => !com_ready && message@
                    == "Failed to initialize COM library for VSS"@,
            },
    {
        if com_ready {
            Ok(VssContext { initialized: true })
        } else {
            Err("Failed to initialize COM library for VSS".to_owned())
        }
    }

    /// Whether COM has to be released again.
    pub fn holds_com(&self) -> (holds: bool)
        ensures
            holds == self.initialized(),
    {
        self.initialized
    }

    /// Asks for a shadow copy of the volume that a path lies on. There is none:
    /// the error says what is missing.
    pub fn create_shadow_copy(&self, first: &FirstComponent) -> (root: std::result::Result<
        String,
        String,
    >)
        ensures
            root is Err,
            root->Err_0@ == shadow_copy_fault(self.initialized(), *first),
    {
        if !self.initialized {
            return Err("VSS Context not initialized".to_owned());
        }
        match get_drive_letter(first) {
            Err(message) => Err(message),
            Ok(drive) => {
                let mut message =
                    "VSS infrastructure ready but full COM implementation requires running on Windows with Admin privileges. Drive detected: ".to_owned();
                message.append(drive.as_str());
                message.append(". To complete this, integrate IVssBackupComponents.");
                Err(message)
            },
        }
    }

    /// Gives a shadow copy up; there is never anything to do.
    pub fn delete_shadow_copy(&self, _shadow_path: &str) -> (deleted: std::result::Result<
        (),
        String,
    >)
        ensures
            deleted is Ok,
    {
        Ok(())
    }
}

/// Where a locked file can be read, through a shadow copy. The error of the
/// context comes first, then that of the shadow copy.
pub fn read_file_via_vss(com_ready: bool, first: &FirstComponent) -> (path: std::result::Result<
    String,
    String,
>)
    ensures
        path is Err,
        path->Err_0@ == if com_ready {
            shadow_copy_fault(true, *first)
        } else {
            "Failed to initialize COM library for VSS"@
        },
{
    match VssContext::new(com_ready) {
        Ok(context) => context.create_shadow_copy(first),
        Err(message) => Err(message),
    }
}

/// A drive is named if and only if the path starts with a prefix, and then by it.
pub proof fn law_drive_is_the_prefix(
    first: FirstComponent,
    letter: std::result::Result<String, String>,
)
    requires
        call_ensures(get_drive_letter, (&first,), letter),
    ensures
        letter is Ok <==> first is Prefix,
        letter is Ok ==> letter->Ok_0@ == first->Prefix_0@,
{
}

/// A context is had if and only if COM is ready, and then it holds COM.
pub proof fn law_context_needs_com(
    com_ready: bool,
    context: std::result::Result<VssContext, String>,
)
    requires
        call_ensures(VssContext::new, (com_ready,), context),
    ensures
        context is Ok <==> com_ready,
        context is Ok ==> context->Ok_0.initialized(),
{
}

/// A locked file is never said to be readable where it is not: without COM the error is
/// that of the context, with it that of the shadow copy.
pub proof fn law_no_shadow_copy_is_made_up(
    context: VssContext,
    com_ready: bool,
    first: FirstComponent,
    root: std::result::Result<String, String>,
    path: std::result::Result<String, String>,
)
    requires
        call_ensures(VssContext::create_shadow_copy, (&context, &first), root),
        call_ensures(read_file_via_vss, (com_ready, &first), path),
    ensures
        root is Err,
        path is Err,
        !com_ready ==> path->Err_0@ == "Failed to initialize COM library for VSS"@,
        com_ready && context.initialized() ==> path->Err_0@ == root->Err_0@,
{
}

} // verus!
