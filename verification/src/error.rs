//! The error type of the copy engine.
//!
//! Each variant is one category of failure, so that a caller can tell them
//! apart. The cause of an I/O failure is kept as the text that the operating
//! system gave for it.

use vstd::prelude::*;
use vstd::string::*;

verus! {

/// The result type of the engine.
pub type Result<T> = std::result::Result<T, CoreError>;

/// What can go wrong in the copy engine.
#[derive(Debug)]
pub enum CoreError {
    /// An I/O failure at a path.
    Io { path: String, source: String },
    /// The source file cannot be read.
    ReadSource { path: String, source: String },
    /// The destination cannot be written.
    WriteDestination { path: String, source: String },
    /// A `.partial` file could not be given its final name.
    AtomicRename { from: String, to: String, source: String },
    /// The digest of the copy differs from that of the source.
    HashMismatch { path: String, expected: String, actual: String },
    /// A checkpoint could not be read or parsed.
    CheckpointLoad { path: String, source: String },
    /// A checkpoint could not be written.
    CheckpointSave { path: String, source: String },
    /// One end of the pipeline hung up.
    PipelineDisconnected,
    /// The operation was paused from outside.
    Paused,
    /// No slot of the swarm became free in time.
    SwarmTimeout,
    /// A configuration parameter is invalid.
    InvalidConfig { message: String },
    /// The platform has no such operation.
    UnsupportedPlatform { operation: &'static str },
}

impl CoreError {
    /// Whether the user can simply try again.
    pub open spec fn recoverable(self) -> bool {
        self is Paused || self is SwarmTimeout
    }

    /// The message that users see.
    pub open spec fn text(self) -> Seq<char> {
        match self {
            CoreError::Io { path, source } => "Error de I/O en '"@ + path@ + "': "@ + source@,
            CoreError::ReadSource { path, source } => "No se puede leer el origen '"@ + path@
                + "': "@ + source@,
            CoreError::WriteDestination { path, source } => "No se puede escribir en destino '"@
                + path@ + "': "@ + source@,
            CoreError::AtomicRename { from, to, source } => "Rename atómico fallido de '"@ + from@
                + "' a '"@ + to@ + "': "@ + source@,
            CoreError::HashMismatch { path, expected, actual } => "Verificación fallida para '"@
                + path@ + "': esperado="@ + expected@ + ", obtenido="@ + actual@,
            CoreError::CheckpointLoad { path, source } =>
                "Checkpoint corrupto o inaccesible en '"@ + path@ + "': "@ + source@,
            CoreError::CheckpointSave { path, source } => "No se pudo guardar checkpoint en '"@
                + path@ + "': "@ + source@,
            CoreError::PipelineDisconnected =>
                "Pipeline interrumpido: el canal fue cerrado prematuramente"@,
            CoreError::Paused => "Operación pausada por el usuario"@,
            CoreError::SwarmTimeout => "Timeout esperando slot en el motor de enjambre"@,
            CoreError::InvalidConfig { message } => "Configuración inválida: "@ + message@,
            CoreError::UnsupportedPlatform { operation } =>
                "Operación no soportada en esta plataforma: "@ + operation@,
        }
    }

    /// An I/O failure at `path`.
    pub fn io(path: String, source: String) -> (error: Self)
        ensures
            error == (CoreError::Io { path, source }),
    {
        CoreError::Io { path, source }
    }

    /// A failure to read the source file `path`.
    pub fn read(path: String, source: String) -> (error: Self)
        ensures
            error == (CoreError::ReadSource { path, source }),
    {
        CoreError::ReadSource { path, source }
    }

    /// A failure to write the destination file `path`.
    pub fn write(path: String, source: String) -> (error: Self)
        ensures
            error == (CoreError::WriteDestination { path, source }),
    {
        CoreError::WriteDestination { path, source }
    }

    /// A failure to rename `from` to `to`.
    pub fn rename(from: String, to: String, source: String) -> (error: Self)
        ensures
            error == (CoreError::AtomicRename { from, to, source }),
    {
        CoreError::AtomicRename { from, to, source }
    }

    /// Whether the user can simply try again.
    pub fn is_recoverable(&self) -> (recoverable: bool)
        ensures
            recoverable == self.recoverable(),
    {
        matches!(self, CoreError::Paused | CoreError::SwarmTimeout)
    }

    /// The message that users see.
    pub fn to_string(&self) -> (message: String)
        ensures
            message@ == self.text(),
    {
        match self {
            CoreError::Io { path, source } => located("Error de I/O en '", path, source),
            CoreError::ReadSource { path, source } => located(
                "No se puede leer el origen '",
                path,
                source,
            ),
            CoreError::WriteDestination { path, source } => located(
                "No se puede escribir en destino '",
                path,
                source,
            ),
            CoreError::AtomicRename { from, to, source } => {
                let mut message = "Rename atómico fallido de '".to_owned();
                message.append(from.as_str());
                message.append("' a '");
                message.append(to.as_str());
                message.append("': ");
                message.append(source.as_str());
                message
            },
            CoreError::HashMismatch { path, expected, actual } => {
                let mut message = "Verificación fallida para '".to_owned();
                message.append(path.as_str());
                message.append("': esperado=");
                message.append(expected.as_str());
                message.append(", obtenido=");
                message.append(actual.as_str());
                message
            },
            CoreError::CheckpointLoad { path, source } => located(
                "Checkpoint corrupto o inaccesible en '",
                path,
                source,
            ),
            CoreError::CheckpointSave { path, source } => located(
                "No se pudo guardar checkpoint en '",
                path,
                source,
            ),
            CoreError::PipelineDisconnected =>
                "Pipeline interrumpido: el canal fue cerrado prematuramente".to_owned(),
            CoreError::Paused => "Operación pausada por el usuario".to_owned(),
            CoreError::SwarmTimeout => "Timeout esperando slot en el motor de enjambre".to_owned(),
            CoreError::InvalidConfig { message } => {
                let mut text = "Configuración inválida: ".to_owned();
                text.append(message.as_str());
                text
            },
            CoreError::UnsupportedPlatform { operation } => {
                let mut text = "Operación no soportada en esta plataforma: ".to_owned();
                text.append(operation);
                text
            },
        }
    }
}

fn located(prefix: &str, path: &String, source: &String) -> (message: String)
    ensures
        message@ == prefix@ + path@ + "': "@ + source@,
{
    let mut message = prefix.to_owned();
    message.append(path.as_str());
    message.append("': ");
    message.append(source.as_str());
    message
}

/// Only a pause and a full swarm pass by themselves; any other failure stays one.
pub proof fn law_only_waiting_can_be_tried_again(error: CoreError, recoverable: bool)
    requires
        call_ensures(CoreError::is_recoverable, (&error,), recoverable),
    ensures
        recoverable <==> error is Paused || error is SwarmTimeout,
        error is HashMismatch || error is Io || error is ReadSource || error is WriteDestination
            || error is AtomicRename || error is CheckpointLoad || error is CheckpointSave
            ==> !recoverable,
{
}

/// Whether `part` stands somewhere in `text`.
pub open spec fn tells(text: Seq<char>, part: Seq<char>) -> bool {
    exists|before: Seq<char>, after: Seq<char>| text == #[trigger] (before + part + after)
}

proof fn lemma_tells(before: Seq<char>, part: Seq<char>, after: Seq<char>, text: Seq<char>)
    requires
        text =~= before + part + after,
    ensures
        tells(text, part),
{
    assert(text == before + part + after);
}

/// The message of a failure tells where it happened and why.
pub proof fn law_message_tells_where_and_why(error: CoreError, message: String)
    requires
        call_ensures(CoreError::to_string, (&error,), message),
    ensures
        match error {
            CoreError::Io { path, source } => tells(message@, path@) && tells(message@, source@),
            CoreError::ReadSource { path, source } => tells(message@, path@) && tells(
                message@,
                source@,
            ),
            CoreError::WriteDestination { path, source } => tells(message@, path@) && tells(
                message@,
                source@,
            ),
            CoreError::AtomicRename { from, to, source } => tells(message@, from@) && tells(
                message@,
                to@,
            ) && tells(message@, source@),
            CoreError::HashMismatch { path, expected, actual } => tells(message@, path@) && tells(
                message@,
                expected@,
            ) && tells(message@, actual@),
            CoreError::CheckpointLoad { path, source } => tells(message@, path@) && tells(
                message@,
                source@,
            ),
            CoreError::CheckpointSave { path, source } => tells(message@, path@) && tells(
                message@,
                source@,
            ),
            CoreError::InvalidConfig { message: why } => tells(message@, why@),
            CoreError::UnsupportedPlatform { operation } => tells(message@, operation@),
            _ => true,
        },
{
    let none = Seq::<char>::empty();
    match error {
        CoreError::Io { path, source } => {
            lemma_located("Error de I/O en '"@, path@, source@, message@);
        },
        CoreError::ReadSource { path, source } => {
            lemma_located("No se puede leer el origen '"@, path@, source@, message@);
        },
        CoreError::WriteDestination { path, source } => {
            lemma_located("No se puede escribir en destino '"@, path@, source@, message@);
        },
        CoreError::CheckpointLoad { path, source } => {
            lemma_located("Checkpoint corrupto o inaccesible en '"@, path@, source@, message@);
        },
        CoreError::CheckpointSave { path, source } => {
            lemma_located("No se pudo guardar checkpoint en '"@, path@, source@, message@);
        },
        CoreError::AtomicRename { from, to, source } => {
            let start = "Rename atómico fallido de '"@;
            lemma_tells(start, from@, "' a '"@ + to@ + "': "@ + source@, message@);
            lemma_tells(start + from@ + "' a '"@, to@, "': "@ + source@, message@);
            lemma_tells(start + from@ + "' a '"@ + to@ + "': "@, source@, none, message@);
        },
        CoreError::HashMismatch { path, expected, actual } => {
            let start = "Verificación fallida para '"@;
            let middle = start + path@ + "': esperado="@;
            lemma_tells(
                start,
                path@,
                "': esperado="@ + expected@ + ", obtenido="@ + actual@,
                message@,
            );
            lemma_tells(middle, expected@, ", obtenido="@ + actual@, message@);
            lemma_tells(middle + expected@ + ", obtenido="@, actual@, none, message@);
        },
        CoreError::InvalidConfig { message: why } => {
            lemma_tells("Configuración inválida: "@, why@, none, message@);
        },
        CoreError::UnsupportedPlatform { operation } => {
            lemma_tells("Operación no soportada en esta plataforma: "@, operation@, none, message@);
        },
        _ => {},
    }
}

proof fn lemma_located(prefix: Seq<char>, path: Seq<char>, source: Seq<char>, text: Seq<char>)
    requires
        text == prefix + path + "': "@ + source,
    ensures
        tells(text, path),
        tells(text, source),
{
    lemma_tells(prefix, path, "': "@ + source, text);
    lemma_tells(prefix + path + "': "@, source, Seq::empty(), text);
}

/// A failure keeps the path and the cause that it was reported with, and its kind.
pub proof fn law_failure_keeps_its_cause(
    path: String,
    source: String,
    io: CoreError,
    read: CoreError,
    write: CoreError,
)
    requires
        call_ensures(CoreError::io, (path, source), io),
        call_ensures(CoreError::read, (path, source), read),
        call_ensures(CoreError::write, (path, source), write),
    ensures
        io is Io && io->Io_path@ == path@ && io->Io_source@ == source@,
        read is ReadSource && read->ReadSource_path@ == path@ && read->ReadSource_source@ == source@,
        write is WriteDestination && write->WriteDestination_path@ == path@
            && write->WriteDestination_source@ == source@,
{
}

/// A rename that failed keeps both of its paths, each in its place, and the cause.
pub proof fn law_failed_rename_keeps_its_paths(
    from: String,
    to: String,
    source: String,
    error: CoreError,
)
    requires
        call_ensures(CoreError::rename, (from, to, source), error),
    ensures
        error is AtomicRename,
        error->from@ == from@,
        error->to@ == to@,
        error->AtomicRename_source@ == source@,
{
}

} // verus!
