//! Bindings: directories under a bindings root, each holding a `type` file
//! and one file per key.
//!
//! The functions here decide what to write or remove and return it as a list
//! of [`BindingOp`]s; the caller carries them out in order. What the caller
//! has to find out first (whether a file exists, what the user answered) is
//! handed in as plain values.
use vstd::prelude::*;
use vstd::string::*;
use vstd::utf8::encode_utf8;

use crate::confirm::BindingConfirmers;
use crate::text::{split_once, split_once_at};

verus! {

/// Why a binding operation was refused.
#[derive(Clone, Copy, Debug, PartialEq, Eq, Structural)]
pub enum BindingErrorKind {
    /// Adding needs a binding type.
    TypeRequired,
    /// Deleting needs a binding name.
    NameRequired,
    /// A parameter has no `=` between key and value.
    MalformedKeyValue,
    /// The confirmation gate declined the overwrite or removal.
    ConfirmationDeclined,
    /// The bindings root is not a directory.
    RootNotADirectory,
    /// A value `@<path>` names a file that does not resolve.
    SourceNotFound,
}

/// The message that goes with each kind of refusal.
pub open spec fn binding_message(kind: BindingErrorKind) -> Seq<char> {
    match kind {
        BindingErrorKind::TypeRequired => "binding type is required when adding a binding"@,
        BindingErrorKind::NameRequired => "binding name is required"@,
        BindingErrorKind::MalformedKeyValue => "could not parse key/value"@,
        BindingErrorKind::ConfirmationDeclined => "confirmation declined, exiting"@,
        BindingErrorKind::RootNotADirectory => "bindings home must be a directory"@,
        BindingErrorKind::SourceNotFound => "cannot canonicalize path to source file"@,
    }
}

/// A refused binding operation: the reason, the reason in words, and what it
/// was about (a parameter, a key or a path).
#[derive(Clone, Debug)]
pub struct BindingError {
    pub kind: BindingErrorKind,
    pub message: &'static str,
    pub subject: String,
}

impl BindingError {
    /// The error of the given kind about `subject`, with its message.
    pub fn new(kind: BindingErrorKind, subject: &str) -> (r: BindingError)
        ensures
            r.kind == kind,
            r.message@ == binding_message(kind),
            r.subject@ == subject@,
    {
        let message = match kind {
            BindingErrorKind::TypeRequired => "binding type is required when adding a binding",
            BindingErrorKind::NameRequired => "binding name is required",
            BindingErrorKind::MalformedKeyValue => "could not parse key/value",
            BindingErrorKind::ConfirmationDeclined => "confirmation declined, exiting",
            BindingErrorKind::RootNotADirectory => "bindings home must be a directory",
            BindingErrorKind::SourceNotFound => "cannot canonicalize path to source file",
        };
        BindingError { kind, message, subject: String::from_str(subject) }
    }
}

/// One filesystem step, relative to the bindings root.
#[derive(Clone, Debug)]
pub enum BindingOp {
    /// Create the binding's directory (and its parents) if it is missing.
    CreateBinding { binding: String },
    /// Write text into a file of the binding, replacing what it held.
    WriteFile { binding: String, file: String, contents: String },
    /// Copy the bytes of the file at `source` into a file of the binding,
    /// replacing what it held. Fails where `source` does not resolve.
    CopyFile { binding: String, file: String, source: String },
    /// Remove one file of the binding.
    RemoveFile { binding: String, file: String },
    /// Remove the binding's directory with everything in it.
    RemoveBinding { binding: String },
}

/// A step as a value of the model: texts as character sequences, written
/// text as its UTF-8 bytes.
pub enum OpSpec {
    CreateBinding(Seq<char>),
    WriteFile(Seq<char>, Seq<char>, Seq<u8>),
    CopyFile(Seq<char>, Seq<char>, Seq<char>),
    RemoveFile(Seq<char>, Seq<char>),
    RemoveBinding(Seq<char>),
}

impl View for BindingOp {
    type V = OpSpec;

    open spec fn view(&self) -> OpSpec {
        match self {
            BindingOp::CreateBinding { binding } => OpSpec::CreateBinding(binding@),
            BindingOp::WriteFile { binding, file, contents } => OpSpec::WriteFile(
                binding@,
                file@,
                encode_utf8(contents@),
            ),
            BindingOp::CopyFile { binding, file, source } => OpSpec::CopyFile(
                binding@,
                file@,
                source@,
            ),
            BindingOp::RemoveFile { binding, file } => OpSpec::RemoveFile(binding@, file@),
            BindingOp::RemoveBinding { binding } => OpSpec::RemoveBinding(binding@),
        }
    }
}

/// The steps of a list, as values of the model.
pub open spec fn ops_view(ops: Seq<BindingOp>) -> Seq<OpSpec> {
    ops.map_values(|o: BindingOp| o@)
}

/// The bindings under a root: each binding's name with its files, each file's
/// name with its bytes.
pub type Store = Map<Seq<char>, Map<Seq<char>, Seq<u8>>>;

/// The files of a binding; none where the binding does not exist.
pub open spec fn files_of(store: Store, binding: Seq<char>) -> Map<Seq<char>, Seq<u8>> {
    if store.contains_key(binding) {
        store[binding]
    } else {
        Map::empty()
    }
}

/// What one step makes of the bindings. `sources` holds the files outside the
/// bindings that a copy may read; a copy from elsewhere fails (`None`).
pub open spec fn apply_op(store: Store, sources: Map<Seq<char>, Seq<u8>>, op: OpSpec) -> Option<Store> {
    match op {
        OpSpec::CreateBinding(b) => Some(store.insert(b, files_of(store, b))),
        OpSpec::WriteFile(b, f, bytes) => Some(store.insert(b, files_of(store, b).insert(f, bytes))),
        OpSpec::CopyFile(b, f, src) => if sources.contains_key(src) {
            Some(store.insert(b, files_of(store, b).insert(f, sources[src])))
        } else {
            None
        },
        OpSpec::RemoveFile(b, f) => if store.contains_key(b) {
            Some(store.insert(b, store[b].remove(f)))
        } else {
            Some(store)
        },
        OpSpec::RemoveBinding(b) => Some(store.remove(b)),
    }
}

/// What a list of steps, carried out in order, makes of the bindings.
pub open spec fn apply_ops(store: Store, sources: Map<Seq<char>, Seq<u8>>, ops: Seq<OpSpec>) -> Option<Store>
    decreases ops.len(),
{
    if ops.len() == 0 {
        Some(store)
    } else {
        match apply_ops(store, sources, ops.drop_last()) {
            Some(s) => apply_op(s, sources, ops.last()),
            None => None,
        }
    }
}

/// The name of the marker file that holds a binding's type.
pub open spec fn type_file() -> Seq<char> {
    seq!['t', 'y', 'p', 'e']
}

/// A value that names a file to copy: it starts with `@`.
pub open spec fn is_file_reference(value: Seq<char>) -> bool {
    value.len() > 0 && value[0] == '@'
}

/// The key and value of a parameter `key=value`: it must hold exactly one `=`.
pub open spec fn key_value_of(pair: Seq<char>) -> Option<(Seq<char>, Seq<char>)> {
    match split_once_at(pair, '=') {
        Some((key, value)) => if split_once_at(value, '=') is None {
            Some((key, value))
        } else {
            None
        },
        None => None,
    }
}

/// The steps that write one key into a binding: create the directory, write
/// the type marker, then write the value, or copy the file that a value
/// `@<path>` names.
pub open spec fn write_ops(binding: Seq<char>, b_type: Seq<char>, key: Seq<char>, value: Seq<char>) -> Seq<OpSpec> {
    let key_op = if is_file_reference(value) {
        OpSpec::CopyFile(binding, key, value.drop_first())
    } else {
        OpSpec::WriteFile(binding, key, encode_utf8(value))
    };
    seq![
        OpSpec::CreateBinding(binding),
        OpSpec::WriteFile(binding, type_file(), encode_utf8(b_type)),
        key_op,
    ]
}

/// Writes one key of a binding: the binding's directory, its type, the key
/// and the value (a literal, or `@<path>` for a file's contents).
pub struct BindingWriter {
    pub path: String,
    pub b_type: String,
    pub key: String,
    pub value: String,
}

impl BindingWriter {
    /// The writer of `key` with `value` into the binding `path` of type `b_type`.
    pub fn new(path: &str, b_type: &str, key: &str, value: &str) -> (r: BindingWriter)
        ensures
            r.path@ == path@,
            r.b_type@ == b_type@,
            r.key@ == key@,
            r.value@ == value@,
    {
        BindingWriter {
            path: String::from_str(path),
            b_type: String::from_str(b_type),
            key: String::from_str(key),
            value: String::from_str(value),
        }
    }

    /// Where the key is written: the binding and the file name in it.
    pub fn binding_key_path(&self) -> (r: (String, String))
        ensures
            r.0@ == self.path@,
            r.1@ == self.key@,
    {
        (self.path.clone(), self.key.clone())
    }

    /// The steps that write the type marker.
    pub fn write_type(&self) -> (r: BindingOp)
        ensures
            r@ == OpSpec::WriteFile(self.path@, type_file(), encode_utf8(self.b_type@)),
    {
        proof {
            reveal_strlit("type");
        }
        assert("type"@ =~= type_file());
        BindingOp::WriteFile {
            binding: self.path.clone(),
            file: String::from_str("type"),
            contents: self.b_type.clone(),
        }
    }

    /// The step that copies the file named by a value `@<path>` into the key.
    pub fn write_key_as_file(&self) -> (r: BindingOp)
        requires
            self.value@.len() > 0,
        ensures
            r@ == OpSpec::CopyFile(self.path@, self.key@, self.value@.drop_first()),
    {
        let n = self.value.as_str().unicode_len();
        let source = self.value.as_str().substring_char(1, n);
        BindingOp::CopyFile {
            binding: self.path.clone(),
            file: self.key.clone(),
            source: String::from_str(source),
        }
    }

    /// The step that writes the value itself into the key.
    pub fn write_key_as_value(&self) -> (r: BindingOp)
        ensures
            r@ == OpSpec::WriteFile(self.path@, self.key@, encode_utf8(self.value@)),
    {
        BindingOp::WriteFile {
            binding: self.path.clone(),
            file: self.key.clone(),
            contents: self.value.clone(),
        }
    }

    /// Whether the value names a file to copy (`@<path>`).
    pub fn is_file_reference(&self) -> (r: bool)
        ensures
            r == is_file_reference(self.value@),
    {
        let v = self.value.as_str();
        v.unicode_len() > 0 && v.get_char(0) == '@'
    }

    /// All the steps that write the key: see [`write_ops`].
    pub fn write(&self) -> (r: Vec<BindingOp>)
        ensures
            ops_view(r@) == write_ops(self.path@, self.b_type@, self.key@, self.value@),
    {
        let mut ops: Vec<BindingOp> = Vec::new();
        ops.push(BindingOp::CreateBinding { binding: self.path.clone() });
        ops.push(self.write_type());
        if self.is_file_reference() {
            ops.push(self.write_key_as_file());
        } else {
            ops.push(self.write_key_as_value());
        }
        assert(ops_view(ops@) =~= write_ops(self.path@, self.b_type@, self.key@, self.value@));
        ops
    }
}

} // verus!

verus! {

/// Where a batch stands: finished, with the steps to carry out and the error
/// that ended it if any, or waiting for the user's reply to one more
/// confirmation question (about `file` of the binding, or about the whole
/// binding where `file` is `None`).
#[derive(Debug)]
pub enum Progress {
    Finished { ops: Vec<BindingOp>, error: Option<BindingError> },
    NeedsReply { file: Option<String> },
}

/// [`Progress`] as a value of the model.
pub enum ProgressSpec {
    Finished(Seq<OpSpec>, Option<BindingErrorKind>),
    NeedsReply(Option<Seq<char>>),
}

impl View for Progress {
    type V = ProgressSpec;

    open spec fn view(&self) -> ProgressSpec {
        match self {
            Progress::Finished { ops, error } => ProgressSpec::Finished(
                ops_view(ops@),
                match error {
                    Some(e) => Some(e.kind),
                    None => None,
                },
            ),
            Progress::NeedsReply { file } => ProgressSpec::NeedsReply(
                match file {
                    Some(f) => Some(f@),
                    None => None,
                },
            ),
        }
    }
}

/// Texts as values of the model.
pub open spec fn texts_view(v: Seq<String>) -> Seq<Seq<char>> {
    v.map_values(|s: String| s@)
}

/// Replies as values of the model.
pub open spec fn replies_view(v: Seq<Option<String>>) -> Seq<Option<Seq<char>>> {
    v.map_values(
        |r: Option<String>|
            match r {
                Some(s) => Some(s@),
                None => None,
            },
    )
}

/// Adds and removes keys of bindings under a bindings root.
pub struct BindingProcessor<'a> {
    pub bindings_home: &'a str,
    pub binding_type: Option<&'a str>,
    pub binding_name: Option<&'a str>,
    pub confirmer: BindingConfirmers,
}

impl<'a> BindingProcessor<'a> {
    /// The binding that keys are added to: its name, else its type.
    pub open spec fn add_target(self) -> Seq<char> {
        match self.binding_name {
            Some(n) => n@,
            None => match self.binding_type {
                Some(t) => t@,
                None => Seq::empty(),
            },
        }
    }

    /// The key and value that a parameter `key=value` names, for a processor
    /// that knows the binding type. A parameter without exactly one `=` is
    /// malformed.
    pub open spec fn parse_pair(self, pair: Seq<char>) -> Result<(Seq<char>, Seq<char>), BindingErrorKind> {
        if self.binding_type is None {
            Err(BindingErrorKind::TypeRequired)
        } else {
            match key_value_of(pair) {
                Some(kv) => Ok(kv),
                None => Err(BindingErrorKind::MalformedKeyValue),
            }
        }
    }

    /// The outcome of adding one parameter, given whether its key's file
    /// exists, whether the file that a value `@<path>` names resolves, and
    /// what the confirmation gate answers where it is asked.
    pub open spec fn add_outcome(
        self,
        pair: Seq<char>,
        key_exists: bool,
        source_found: bool,
        approved: bool,
    ) -> Result<Seq<OpSpec>, BindingErrorKind> {
        match self.parse_pair(pair) {
            Err(k) => Err(k),
            Ok((key, value)) => if key_exists && !approved {
                Err(BindingErrorKind::ConfirmationDeclined)
            } else if is_file_reference(value) && !source_found {
                Err(BindingErrorKind::SourceNotFound)
            } else {
                Ok(write_ops(self.add_target(), self.binding_type->0@, key, value))
            },
        }
    }

    /// A processor for the bindings under `bindings_home`.
    pub fn new(
        bindings_home: &'a str,
        binding_type: Option<&'a str>,
        binding_name: Option<&'a str>,
        confirmer: BindingConfirmers,
    ) -> (r: BindingProcessor<'a>)
        ensures
            r.bindings_home == bindings_home,
            r.binding_type == binding_type,
            r.binding_name == binding_name,
            r.confirmer == confirmer,
    {
        BindingProcessor { bindings_home, binding_type, binding_name, confirmer }
    }

    /// The writer for one parameter `key=value`.
    pub fn writer(&self, binding_key_val: &str) -> (r: Result<BindingWriter, BindingError>)
        ensures
            match self.parse_pair(binding_key_val@) {
                Ok((key, value)) => r matches Ok(w) && w.path@ == self.add_target() && w.b_type@
                    == self.binding_type->0@ && w.key@ == key && w.value@ == value,
                Err(k) => r matches Err(e) && e.kind == k && e.message@ == binding_message(k),
            },
    {
        let binding_type = match self.binding_type {
            Some(t) => t,
            None => return Err(BindingError::new(BindingErrorKind::TypeRequired, binding_key_val)),
        };
        let binding = match self.binding_name {
            Some(n) => n,
            None => binding_type,
        };
        match split_once(binding_key_val, '=') {
            Some((key, value)) => {
                if split_once(value, '=').is_some() {
                    return Err(BindingError::new(BindingErrorKind::MalformedKeyValue, binding_key_val));
                }
                Ok(BindingWriter::new(binding, binding_type, key, value))
            },
            None => Err(BindingError::new(BindingErrorKind::MalformedKeyValue, binding_key_val)),
        }
    }

    /// Adds one parameter `key=value` to the binding named after the
    /// processor's name, else its type. `key_exists` tells whether the key's
    /// file is there already; then the confirmation gate is asked, with the
    /// user's `reply` where it is interactive, and a decline refuses the add.
    /// A value `@<path>` whose file does not resolve (`source_found`) is
    /// refused next, before any step.
    pub fn add_binding(
        &self,
        binding_key_val: &str,
        key_exists: bool,
        source_found: bool,
        reply: Option<&str>,
    ) -> (r: Result<Vec<BindingOp>, BindingError>)
        ensures
            match self.add_outcome(
                binding_key_val@,
                key_exists,
                source_found,
                self.confirmer.decides(crate::confirm::reply_view(reply)),
            ) {
                Ok(ops) => r matches Ok(v) && ops_view(v@) == ops,
                Err(k) => r matches Err(e) && e.kind == k && e.message@ == binding_message(k),
            },
    {
        let writer = self.writer(binding_key_val)?;
        if key_exists && !self.confirmer.confirm(reply) {
            return Err(BindingError::new(BindingErrorKind::ConfirmationDeclined, writer.key.as_str()));
        }
        if writer.is_file_reference() && !source_found {
            return Err(BindingError::new(BindingErrorKind::SourceNotFound, writer.value.as_str()));
        }
        Ok(writer.write())
    }
}

} // verus!

verus! {

/// Whether `s` is one of the texts of `v`.
fn contains_text(v: &Vec<String>, s: &str) -> (r: bool)
    ensures
        r == texts_view(v@).contains(s@),
{
    let wanted = String::from_str(s);
    let n = v.len();
    let mut i: usize = 0;
    while i < n
        invariant
            n == v@.len(),
            i <= n,
            wanted@ == s@,
            forall|j: int| 0 <= j < i ==> v@[j]@ != s@,
        decreases n - i,
    {
        if v[i] == wanted {
            assert(texts_view(v@)[i as int] == s@);
            return true;
        }
        i = i + 1;
    }
    assert forall|j: int| 0 <= j < texts_view(v@).len() implies texts_view(v@)[j] != s@ by {
        assert(v@[j]@ != s@);
    }
    false
}

/// The reply at `index`, borrowed, where it is asked for.
fn reply_at(replies: &Vec<Option<String>>, index: usize, asks: bool) -> (r: Option<&str>)
    requires
        asks ==> index < replies@.len(),
    ensures
        crate::confirm::reply_view(r) == if asks {
            replies_view(replies@)[index as int]
        } else {
            None
        },
{
    if asks {
        match &replies[index] {
            Some(s) => Some(s.as_str()),
            None => None,
        }
    } else {
        None
    }
}

impl<'a> BindingProcessor<'a> {
    /// How a batch of parameters goes on from the `i`-th: `asked` replies are
    /// used up, the batch has written the files `written` and gathered the
    /// steps `ops`. A key counts as existing where it was there before the
    /// batch (`present`) or the batch wrote it; `resolves` tells for each
    /// parameter whether the file that a value `@<path>` names resolves.
    pub open spec fn add_all_from(
        self,
        pairs: Seq<Seq<char>>,
        present: Seq<bool>,
        resolves: Seq<bool>,
        replies: Seq<Option<Seq<char>>>,
        i: int,
        asked: int,
        written: Seq<Seq<char>>,
        ops: Seq<OpSpec>,
    ) -> ProgressSpec
        decreases pairs.len() - i,
    {
        if i < 0 || i >= pairs.len() {
            ProgressSpec::Finished(ops, None)
        } else {
            match self.parse_pair(pairs[i]) {
                Err(k) => ProgressSpec::Finished(ops, Some(k)),
                Ok((key, value)) => {
                    let exists = present[i] || written.contains(key);
                    let asks = exists && self.confirmer is Console;
                    if asks && asked >= replies.len() {
                        ProgressSpec::NeedsReply(Some(key))
                    } else if exists && !self.confirmer.decides(
                        if asks {
                            replies[asked]
                        } else {
                            None
                        },
                    ) {
                        ProgressSpec::Finished(ops, Some(BindingErrorKind::ConfirmationDeclined))
                    } else if is_file_reference(value) && !resolves[i] {
                        ProgressSpec::Finished(ops, Some(BindingErrorKind::SourceNotFound))
                    } else {
                        self.add_all_from(
                            pairs,
                            present,
                            resolves,
                            replies,
                            i + 1,
                            if asks {
                                asked + 1
                            } else {
                                asked
                            },
                            written.push(type_file()).push(key),
                            ops + write_ops(self.add_target(), self.binding_type->0@, key, value),
                        )
                    }
                },
            }
        }
    }

    /// Adds each parameter `key=value` in turn; the first that fails ends the
    /// batch, and the steps of the ones before it stand. `present[i]` tells
    /// whether the key of the `i`-th parameter exists before the batch, and
    /// `resolves[i]` whether the file its value `@<path>` names resolves;
    /// `replies` are the user's answers to the confirmation questions asked so
    /// far, in order. Where the batch needs one more answer it says so, and is
    /// to be run again with that answer added.
    pub fn add_bindings(
        &self,
        binding_key_vals: &Vec<String>,
        present: &Vec<bool>,
        resolves: &Vec<bool>,
        replies: &Vec<Option<String>>,
    ) -> (r: Progress)
        requires
            present@.len() == binding_key_vals@.len(),
            resolves@.len() == binding_key_vals@.len(),
        ensures
            r@ == self.add_all_from(
                texts_view(binding_key_vals@),
                present@,
                resolves@,
                replies_view(replies@),
                0,
                0,
                Seq::empty(),
                Seq::empty(),
            ),
    {
        let ghost pairs = texts_view(binding_key_vals@);
        let ghost rs = replies_view(replies@);
        let mut ops: Vec<BindingOp> = Vec::new();
        let mut written: Vec<String> = Vec::new();
        let mut asked: usize = 0;
        let n = binding_key_vals.len();
        let mut i: usize = 0;
        assert(texts_view(written@) =~= Seq::<Seq<char>>::empty());
        assert(ops_view(ops@) =~= Seq::<OpSpec>::empty());
        while i < n
            invariant
                n == binding_key_vals@.len(),
                n == present@.len(),
                n == resolves@.len(),
                pairs == texts_view(binding_key_vals@),
                rs == replies_view(replies@),
                i <= n,
                asked <= replies@.len(),
                self.add_all_from(pairs, present@, resolves@, rs, 0, 0, Seq::empty(), Seq::empty())
                    == self.add_all_from(
                    pairs,
                    present@,
                    resolves@,
                    rs,
                    i as int,
                    asked as int,
                    texts_view(written@),
                    ops_view(ops@),
                ),
            decreases n - i,
        {
            assert(pairs[i as int] == binding_key_vals@[i as int]@);
            let w = match self.writer(binding_key_vals[i].as_str()) {
                Ok(w) => w,
                Err(e) => {
                    return Progress::Finished { ops, error: Some(e) };
                },
            };
            let exists = present[i] || contains_text(&written, w.key.as_str());
            let asks = exists && self.confirmer.is_interactive();
            if asks && asked >= replies.len() {
                return Progress::NeedsReply { file: Some(w.key.clone()) };
            }
            let reply = reply_at(replies, asked, asks);
            if exists && !self.confirmer.confirm(reply) {
                let e = BindingError::new(BindingErrorKind::ConfirmationDeclined, w.key.as_str());
                return Progress::Finished { ops, error: Some(e) };
            }
            if w.is_file_reference() && !resolves[i] {
                let e = BindingError::new(BindingErrorKind::SourceNotFound, w.value.as_str());
                return Progress::Finished { ops, error: Some(e) };
            }
            let mut step = w.write();
            let ghost before_ops = ops@;
            let ghost before_written = written@;
            ops.append(&mut step);
            assert(ops_view(ops@) =~= ops_view(before_ops) + write_ops(
                self.add_target(),
                self.binding_type->0@,
                w.key@,
                w.value@,
            ));
            proof {
                reveal_strlit("type");
            }
            assert("type"@ =~= type_file());
            written.push(String::from_str("type"));
            written.push(w.key.clone());
            assert(texts_view(written@) =~= texts_view(before_written).push(type_file()).push(
                w.key@,
            ));
            if asks {
                asked = asked + 1;
            }
            i = i + 1;
        }
        Progress::Finished { ops, error: None }
    }
}

} // verus!

verus! {

impl<'a> BindingProcessor<'a> {
    /// The binding that keys are deleted from.
    pub open spec fn delete_target(self) -> Seq<char> {
        match self.binding_name {
            Some(n) => n@,
            None => Seq::empty(),
        }
    }

    /// The confirmation gate's answer to the next question, where it has one:
    /// `None` where the user has yet to reply.
    pub open spec fn answer(self, replies: Seq<Option<Seq<char>>>, asked: int) -> Option<bool> {
        if self.confirmer is Console {
            if asked < replies.len() {
                Some(self.confirmer.decides(replies[asked]))
            } else {
                None
            }
        } else {
            Some(self.confirmer.decides(None))
        }
    }

    /// The replies used up once one more question is answered.
    pub open spec fn asked_after(self, asked: int) -> int {
        if self.confirmer is Console {
            asked + 1
        } else {
            asked
        }
    }

    /// How a deletion goes on from the `i`-th key: `asked` replies are used
    /// up, the deletion has removed the files `removed` and gathered the
    /// steps `ops`. With no keys at all, the whole binding goes.
    pub open spec fn delete_from(
        self,
        keys: Seq<Seq<char>>,
        present: Seq<bool>,
        replies: Seq<Option<Seq<char>>>,
        i: int,
        asked: int,
        removed: Seq<Seq<char>>,
        ops: Seq<OpSpec>,
    ) -> ProgressSpec
        decreases keys.len() - i,
    {
        let binding = self.delete_target();
        if i < 0 || i >= keys.len() {
            if keys.len() == 0 {
                match self.answer(replies, asked) {
                    None => ProgressSpec::NeedsReply(None),
                    Some(false) => ProgressSpec::Finished(
                        ops,
                        Some(BindingErrorKind::ConfirmationDeclined),
                    ),
                    Some(true) => ProgressSpec::Finished(ops.push(OpSpec::RemoveBinding(binding)), None),
                }
            } else {
                ProgressSpec::Finished(ops, None)
            }
        } else {
            let key = keys[i];
            if !present[i] || removed.contains(key) {
                self.delete_from(keys, present, replies, i + 1, asked, removed, ops)
            } else {
                match self.answer(replies, asked) {
                    None => ProgressSpec::NeedsReply(Some(key)),
                    Some(false) => ProgressSpec::Finished(
                        ops,
                        Some(BindingErrorKind::ConfirmationDeclined),
                    ),
                    Some(true) => self.delete_from(
                        keys,
                        present,
                        replies,
                        i + 1,
                        self.asked_after(asked),
                        removed.push(key),
                        ops.push(OpSpec::RemoveFile(binding, key)),
                    ),
                }
            }
        }
    }

    /// The outcome of deleting `keys` from the named binding, or the whole
    /// binding where `keys` is empty.
    pub open spec fn delete_outcome(
        self,
        keys: Seq<Seq<char>>,
        root_is_dir: bool,
        present: Seq<bool>,
        replies: Seq<Option<Seq<char>>>,
    ) -> ProgressSpec {
        if !root_is_dir {
            ProgressSpec::Finished(Seq::empty(), Some(BindingErrorKind::RootNotADirectory))
        } else if self.binding_name is None {
            ProgressSpec::Finished(Seq::empty(), Some(BindingErrorKind::NameRequired))
        } else {
            self.delete_from(keys, present, replies, 0, 0, Seq::empty(), Seq::empty())
        }
    }

    /// Whether the next confirmation is approved; `None` until the user has replied.
    fn ask(&self, replies: &Vec<Option<String>>, asked: usize) -> (r: Option<bool>)
        ensures
            r == self.answer(replies_view(replies@), asked as int),
            r is Some && self.confirmer is Console ==> asked < replies@.len(),
    {
        let asks = self.confirmer.is_interactive();
        if asks && asked >= replies.len() {
            return None;
        }
        Some(self.confirmer.confirm(reply_at(replies, asked, asks)))
    }

    /// Deletes `binding_keys` from the named binding: each key whose file is
    /// there (`present`) is removed once the confirmation gate approves, and a
    /// decline ends the deletion, the keys removed before it staying removed.
    /// With no keys the whole binding is removed, once approved. The bindings
    /// root must be a directory (`root_is_dir`). `replies` are the user's
    /// answers so far, in order; where one more is needed the result says so.
    pub fn delete_bindings(
        &self,
        binding_keys: &Vec<String>,
        root_is_dir: bool,
        present: &Vec<bool>,
        replies: &Vec<Option<String>>,
    ) -> (r: Progress)
        requires
            present@.len() == binding_keys@.len(),
        ensures
            r@ == self.delete_outcome(
                texts_view(binding_keys@),
                root_is_dir,
                present@,
                replies_view(replies@),
            ),
    {
        let mut ops: Vec<BindingOp> = Vec::new();
        if !root_is_dir {
            let e = BindingError::new(BindingErrorKind::RootNotADirectory, self.bindings_home);
            assert(ops_view(ops@) =~= Seq::<OpSpec>::empty());
            return Progress::Finished { ops, error: Some(e) };
        }
        let binding = match self.binding_name {
            Some(n) => n,
            None => {
                let e = BindingError::new(BindingErrorKind::NameRequired, self.bindings_home);
                assert(ops_view(ops@) =~= Seq::<OpSpec>::empty());
                return Progress::Finished { ops, error: Some(e) };
            },
        };
        let ghost keys = texts_view(binding_keys@);
        let ghost rs = replies_view(replies@);
        let mut removed: Vec<String> = Vec::new();
        let mut asked: usize = 0;
        let n_replies = replies.len();
        let n = binding_keys.len();
        let mut i: usize = 0;
        assert(texts_view(removed@) =~= Seq::<Seq<char>>::empty());
        assert(ops_view(ops@) =~= Seq::<OpSpec>::empty());
        while i < n
            invariant
                n == binding_keys@.len(),
                n == present@.len(),
                keys == texts_view(binding_keys@),
                rs == replies_view(replies@),
                self.binding_name == Some(binding),
                root_is_dir,
                rs.len() == replies@.len(),
                n_replies == replies@.len(),
                i <= n,
                asked <= replies@.len(),
                self.delete_from(keys, present@, rs, 0, 0, Seq::empty(), Seq::empty())
                    == self.delete_from(
                    keys,
                    present@,
                    rs,
                    i as int,
                    asked as int,
                    texts_view(removed@),
                    ops_view(ops@),
                ),
            decreases n - i,
        {
            let key = binding_keys[i].as_str();
            assert(keys[i as int] == key@);
            if present[i] && !contains_text(&removed, key) {
                let answer = self.ask(replies, asked);
                match answer {
                    None => {
                        return Progress::NeedsReply { file: Some(String::from_str(key)) };
                    },
                    Some(false) => {
                        let e = BindingError::new(BindingErrorKind::ConfirmationDeclined, key);
                        return Progress::Finished { ops, error: Some(e) };
                    },
                    Some(true) => {
                        let ghost before_ops = ops@;
                        let ghost before_removed = removed@;
                        ops.push(
                            BindingOp::RemoveFile {
                                binding: String::from_str(binding),
                                file: String::from_str(key),
                            },
                        );
                        removed.push(String::from_str(key));
                        assert(ops_view(ops@) =~= ops_view(before_ops).push(
                            OpSpec::RemoveFile(binding@, key@),
                        ));
                        assert(texts_view(removed@) =~= texts_view(before_removed).push(key@));
                        if self.confirmer.is_interactive() {
                            asked = asked + 1;
                        }
                    },
                }
            }
            i = i + 1;
        }
        if n == 0 {
            match self.ask(replies, asked) {
                None => {
                    return Progress::NeedsReply { file: None };
                },
                Some(false) => {
                    let e = BindingError::new(BindingErrorKind::ConfirmationDeclined, binding);
                    return Progress::Finished { ops, error: Some(e) };
                },
                Some(true) => {
                    let ghost before_ops = ops@;
                    ops.push(BindingOp::RemoveBinding { binding: String::from_str(binding) });
                    assert(ops_view(ops@) =~= ops_view(before_ops).push(
                        OpSpec::RemoveBinding(binding@),
                    ));
                },
            }
        }
        Progress::Finished { ops, error: None }
    }
}

} // verus!
