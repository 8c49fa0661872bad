//! The validated module: normalized parameters, internal runtime metadata,
//! and the output documents a module answers with.
use vstd::prelude::*;
use vstd::string::StrSliceExecFns;
use vstd::string::StringExecFns;

use crate::json::{entries_get, json_view, json_view_entries, json_view_seq, kv_has, kv_lookup,
    lemma_json_view_entries, lemma_json_view_seq, JsonValue, JsonView};
use crate::render::{json_string_text, json_text, push_json_string, render_json, string_views};

verus! {

/// A validated value paired with its secrecy flag.
#[derive(Debug)]
pub struct ArgumentValue {
    pub value: JsonValue,
    pub no_log: bool,
}

/// The mathematical shape of an [`ArgumentValue`].
#[verifier::ext_equal]
pub struct ArgumentValueView {
    pub value: JsonView,
    pub no_log: bool,
}

impl View for ArgumentValue {
    type V = ArgumentValueView;

    open spec fn view(&self) -> ArgumentValueView {
        ArgumentValueView { value: json_view(self.value), no_log: self.no_log }
    }
}

impl Clone for ArgumentValue {
    fn clone(&self) -> (r: Self)
        ensures
            r@ == self@,
    {
        ArgumentValue { value: self.value.clone(), no_log: self.no_log }
    }
}

/// The views of a sequence of named parameters.
pub open spec fn params_view(s: Seq<(String, ArgumentValue)>) -> Seq<
    (Seq<char>, ArgumentValueView),
> {
    Seq::new(s.len(), |i: int| (s[i].0@, s[i].1@))
}

/// The normalized parameters of a validated module: values keyed by argument
/// name, in spec order.
#[derive(Debug)]
pub struct ModuleArgs {
    /// The named parameters, in spec order.
    pub entries: Vec<(String, ArgumentValue)>,
}

impl View for ModuleArgs {
    type V = Seq<(Seq<char>, ArgumentValueView)>;

    open spec fn view(&self) -> Seq<(Seq<char>, ArgumentValueView)> {
        params_view(self.entries@)
    }
}

impl ModuleArgs {
    /// An empty parameter mapping.
    pub fn new() -> (r: Self)
        ensures
            r@ == Seq::<(Seq<char>, ArgumentValueView)>::empty(),
    {
        let r = ModuleArgs { entries: Vec::new() };
        proof {
            assert(r@ =~= Seq::<(Seq<char>, ArgumentValueView)>::empty());
        }
        r
    }

    pub(crate) fn from_entries(entries: Vec<(String, ArgumentValue)>) -> (r: Self)
        ensures
            r@ == params_view(entries@),
    {
        ModuleArgs { entries }
    }

    pub fn len(&self) -> (r: usize)
        ensures
            r == self@.len(),
    {
        self.entries.len()
    }

    /// The parameter stored under `key`, if any.
    #[verifier::loop_isolation(false)]
    pub fn get(&self, key: &str) -> (r: Option<&ArgumentValue>)
        ensures
            match r {
                Some(v) => kv_lookup(self@, key@) == Some(v@),
                None => kv_lookup(self@, key@) is None,
            },
    {
        let k = String::from_str(key);
        let ghost pv = self@;
        proof {
            assert(pv.subrange(0, pv.len() as int) =~= pv);
        }
        let mut i: usize = 0;
        while i < self.entries.len()
            invariant
                i <= self.entries@.len(),
                kv_lookup(pv, key@) == kv_lookup(pv.subrange(i as int, pv.len() as int), key@),
            decreases self.entries@.len() - i,
        {
            proof {
                assert(pv.subrange(i as int, pv.len() as int).drop_first() =~= pv.subrange(
                    i as int + 1,
                    pv.len() as int,
                ));
            }
            if self.entries[i].0 == k {
                return Some(&self.entries[i].1);
            }
            i += 1;
        }
        proof {
            assert(pv.subrange(0, pv.len() as int) =~= pv);
        }
        None
    }

    /// Whether a parameter is stored under `key`.
    pub fn contains_key(&self, key: &str) -> (r: bool)
        ensures
            r == kv_has(self@, key@),
    {
        proof {
            crate::json::lemma_kv_lookup_has(self@, key@);
        }
        match self.get(key) {
            Some(_) => true,
            None => false,
        }
    }
}

/// The internal runtime metadata of a module invocation: reserved-prefix
/// fields that are parsed and handed through, never validated against the
/// spec.
#[derive(Debug, Clone)]
pub struct InternalArgs {
    pub no_log: bool,
    pub debug: bool,
    pub check_mode: bool,
    pub diff: bool,
    pub verbosity: u8,
    pub socket: Option<String>,
    pub target_log_info: Option<String>,
    pub ignore_unknown_opts: bool,
    pub keep_remote_files: bool,
    pub string_conversion_action: Option<String>,
    pub version: Option<String>,
    pub module_name: Option<String>,
    pub syslog_facility: Option<String>,
    pub selinux_special_fs: Vec<String>,
    pub shell_executable: Option<String>,
    pub tmpdir: Option<String>,
    pub remote_tmp: Option<String>,
}

/// The mathematical shape of an [`InternalArgs`].
#[verifier::ext_equal]
pub struct InternalArgsView {
    pub no_log: bool,
    pub debug: bool,
    pub check_mode: bool,
    pub diff: bool,
    pub verbosity: u8,
    pub socket: Option<Seq<char>>,
    pub target_log_info: Option<Seq<char>>,
    pub ignore_unknown_opts: bool,
    pub keep_remote_files: bool,
    pub string_conversion_action: Option<Seq<char>>,
    pub version: Option<Seq<char>>,
    pub module_name: Option<Seq<char>>,
    pub syslog_facility: Option<Seq<char>>,
    pub selinux_special_fs: Seq<Seq<char>>,
    pub shell_executable: Option<Seq<char>>,
    pub tmpdir: Option<Seq<char>>,
    pub remote_tmp: Option<Seq<char>>,
}

pub open spec fn opt_string_view(s: Option<String>) -> Option<Seq<char>> {
    match s {
        Some(v) => Some(v@),
        None => None,
    }
}

impl View for InternalArgs {
    type V = InternalArgsView;

    open spec fn view(&self) -> InternalArgsView {
        InternalArgsView {
            no_log: self.no_log,
            debug: self.debug,
            check_mode: self.check_mode,
            diff: self.diff,
            verbosity: self.verbosity,
            socket: opt_string_view(self.socket),
            target_log_info: opt_string_view(self.target_log_info),
            ignore_unknown_opts: self.ignore_unknown_opts,
            keep_remote_files: self.keep_remote_files,
            string_conversion_action: opt_string_view(self.string_conversion_action),
            version: opt_string_view(self.version),
            module_name: opt_string_view(self.module_name),
            syslog_facility: opt_string_view(self.syslog_facility),
            selinux_special_fs: string_views(self.selinux_special_fs@),
            shell_executable: opt_string_view(self.shell_executable),
            tmpdir: opt_string_view(self.tmpdir),
            remote_tmp: opt_string_view(self.remote_tmp),
        }
    }
}

/// The metadata of an invocation that carries no reserved fields.
pub open spec fn internal_defaults() -> InternalArgsView {
    InternalArgsView {
        no_log: false,
        debug: false,
        check_mode: false,
        diff: false,
        verbosity: 0,
        socket: None,
        target_log_info: None,
        ignore_unknown_opts: false,
        keep_remote_files: false,
        string_conversion_action: None,
        version: None,
        module_name: None,
        syslog_facility: None,
        selinux_special_fs: Seq::empty(),
        shell_executable: None,
        tmpdir: None,
        remote_tmp: None,
    }
}

impl Default for InternalArgs {
    fn default() -> (r: Self)
        ensures
            r@ == internal_defaults(),
    {
        let r = InternalArgs {
            no_log: false,
            debug: false,
            check_mode: false,
            diff: false,
            verbosity: 0,
            socket: None,
            target_log_info: None,
            ignore_unknown_opts: false,
            keep_remote_files: false,
            string_conversion_action: None,
            version: None,
            module_name: None,
            syslog_facility: None,
            selinux_special_fs: Vec::new(),
            shell_executable: None,
            tmpdir: None,
            remote_tmp: None,
        };
        proof {
            assert(r@ =~= internal_defaults());
        }
        r
    }
}

pub open spec fn msg_internal_field(k: Seq<char>) -> Seq<char> {
    seq!['\''] + k + "' has the wrong type"@
}

/// A reserved boolean field: absent means false; anything but a boolean is a
/// complaint.
pub open spec fn internal_bool(input: Seq<(Seq<char>, JsonView)>, k: Seq<char>) -> Result<
    bool,
    Seq<char>,
> {
    match kv_lookup(input, k) {
        None => Ok(false),
        Some(JsonView::Bool(b)) => Ok(b),
        Some(_) => Err(msg_internal_field(k)),
    }
}

/// A reserved small-number field: absent means zero; anything but an integer
/// in byte range is a complaint.
pub open spec fn internal_u8(input: Seq<(Seq<char>, JsonView)>, k: Seq<char>) -> Result<
    u8,
    Seq<char>,
> {
    match kv_lookup(input, k) {
        None => Ok(0),
        Some(JsonView::Uint(n)) => if n <= 255 {
            Ok(n as u8)
        } else {
            Err(msg_internal_field(k))
        },
        Some(_) => Err(msg_internal_field(k)),
    }
}

/// A reserved optional string field: absent or null means none.
pub open spec fn internal_opt_str(input: Seq<(Seq<char>, JsonView)>, k: Seq<char>) -> Result<
    Option<Seq<char>>,
    Seq<char>,
> {
    match kv_lookup(input, k) {
        None => Ok(None),
        Some(JsonView::Null) => Ok(None),
        Some(JsonView::Str(s)) => Ok(Some(s)),
        Some(_) => Err(msg_internal_field(k)),
    }
}

/// Whether every element of a list is a string.
pub open spec fn all_strings(items: Seq<JsonView>) -> bool {
    forall|i: int| 0 <= i < items.len() ==> items[i] is Str
}

pub open spec fn string_items(items: Seq<JsonView>) -> Seq<Seq<char>> {
    Seq::new(items.len(), |i: int| items[i]->Str_0)
}

/// A reserved list-of-strings field: absent means empty; anything but a list
/// of strings is a complaint.
pub open spec fn internal_str_list(input: Seq<(Seq<char>, JsonView)>, k: Seq<char>) -> Result<
    Seq<Seq<char>>,
    Seq<char>,
> {
    match kv_lookup(input, k) {
        None => Ok(Seq::empty()),
        Some(JsonView::List(items)) => if all_strings(items) {
            Ok(string_items(items))
        } else {
            Err(msg_internal_field(k))
        },
        Some(_) => Err(msg_internal_field(k)),
    }
}

/// The first complaint that reading the reserved fields raises, in field
/// order.
pub open spec fn internal_first_error(input: Seq<(Seq<char>, JsonView)>) -> Option<Seq<char>> {
    if internal_bool(input, "_ansible_no_log"@) is Err {
        Some(internal_bool(input, "_ansible_no_log"@)->Err_0)
    } else if internal_bool(input, "_ansible_debug"@) is Err {
        Some(internal_bool(input, "_ansible_debug"@)->Err_0)
    } else if internal_bool(input, "_ansible_check_mode"@) is Err {
        Some(internal_bool(input, "_ansible_check_mode"@)->Err_0)
    } else if internal_bool(input, "_ansible_diff"@) is Err {
        Some(internal_bool(input, "_ansible_diff"@)->Err_0)
    } else if internal_u8(input, "_ansible_verbosity"@) is Err {
        Some(internal_u8(input, "_ansible_verbosity"@)->Err_0)
    } else if internal_opt_str(input, "_ansible_socket"@) is Err {
        Some(internal_opt_str(input, "_ansible_socket"@)->Err_0)
    } else if internal_opt_str(input, "_ansible_target_log_info"@) is Err {
        Some(internal_opt_str(input, "_ansible_target_log_info"@)->Err_0)
    } else if internal_bool(input, "_ansible_ignore_unknown_opts"@) is Err {
        Some(internal_bool(input, "_ansible_ignore_unknown_opts"@)->Err_0)
    } else if internal_bool(input, "_ansible_keep_remote_files"@) is Err {
        Some(internal_bool(input, "_ansible_keep_remote_files"@)->Err_0)
    } else if internal_opt_str(input, "_ansible_string_conversion_action"@) is Err {
        Some(internal_opt_str(input, "_ansible_string_conversion_action"@)->Err_0)
    } else if internal_opt_str(input, "_ansible_version"@) is Err {
        Some(internal_opt_str(input, "_ansible_version"@)->Err_0)
    } else if internal_opt_str(input, "_ansible_module_name"@) is Err {
        Some(internal_opt_str(input, "_ansible_module_name"@)->Err_0)
    } else if internal_opt_str(input, "_ansible_syslog_facility"@) is Err {
        Some(internal_opt_str(input, "_ansible_syslog_facility"@)->Err_0)
    } else if internal_str_list(input, "_ansible_selinux_special_fs"@) is Err {
        Some(internal_str_list(input, "_ansible_selinux_special_fs"@)->Err_0)
    } else if internal_opt_str(input, "_ansible_shell_executable"@) is Err {
        Some(internal_opt_str(input, "_ansible_shell_executable"@)->Err_0)
    } else if internal_opt_str(input, "_ansible_tmpdir"@) is Err {
        Some(internal_opt_str(input, "_ansible_tmpdir"@)->Err_0)
    } else if internal_opt_str(input, "_ansible_remote_tmp"@) is Err {
        Some(internal_opt_str(input, "_ansible_remote_tmp"@)->Err_0)
    } else {
        None
    }
}

/// The reserved fields read from the raw input, when none raises a
/// complaint.
pub open spec fn internal_args_of(input: Seq<(Seq<char>, JsonView)>) -> InternalArgsView {
    InternalArgsView {
        no_log: internal_bool(input, "_ansible_no_log"@)->Ok_0,
        debug: internal_bool(input, "_ansible_debug"@)->Ok_0,
        check_mode: internal_bool(input, "_ansible_check_mode"@)->Ok_0,
        diff: internal_bool(input, "_ansible_diff"@)->Ok_0,
        verbosity: internal_u8(input, "_ansible_verbosity"@)->Ok_0,
        socket: internal_opt_str(input, "_ansible_socket"@)->Ok_0,
        target_log_info: internal_opt_str(input, "_ansible_target_log_info"@)->Ok_0,
        ignore_unknown_opts: internal_bool(input, "_ansible_ignore_unknown_opts"@)->Ok_0,
        keep_remote_files: internal_bool(input, "_ansible_keep_remote_files"@)->Ok_0,
        string_conversion_action: internal_opt_str(
            input,
            "_ansible_string_conversion_action"@,
        )->Ok_0,
        version: internal_opt_str(input, "_ansible_version"@)->Ok_0,
        module_name: internal_opt_str(input, "_ansible_module_name"@)->Ok_0,
        syslog_facility: internal_opt_str(input, "_ansible_syslog_facility"@)->Ok_0,
        selinux_special_fs: internal_str_list(input, "_ansible_selinux_special_fs"@)->Ok_0,
        shell_executable: internal_opt_str(input, "_ansible_shell_executable"@)->Ok_0,
        tmpdir: internal_opt_str(input, "_ansible_tmpdir"@)->Ok_0,
        remote_tmp: internal_opt_str(input, "_ansible_remote_tmp"@)->Ok_0,
    }
}

/// The reserved fields read from the raw input, or the first complaint.
pub open spec fn parse_internal(input: Seq<(Seq<char>, JsonView)>) -> Result<
    InternalArgsView,
    Seq<char>,
> {
    match internal_first_error(input) {
        Some(m) => Err(m),
        None => Ok(internal_args_of(input)),
    }
}

fn internal_field_msg(k: &str) -> (m: String)
    ensures
        m@ == msg_internal_field(k@),
{
    let mut m = String::from_str("'");
    m.append(k);
    m.append("' has the wrong type");
    proof {
        reveal_strlit("'");
        assert(m@ =~= msg_internal_field(k@));
    }
    m
}

fn get_internal_bool(entries: &Vec<(String, JsonValue)>, k: &str) -> (r: Result<bool, String>)
    ensures
        match r {
            Ok(b) => internal_bool(json_view_entries(entries@), k@) == Ok::<bool, Seq<char>>(b),
            Err(m) => internal_bool(json_view_entries(entries@), k@) == Err::<bool, Seq<char>>(m@),
        },
{
    match entries_get(entries, &String::from_str(k)) {
        None => Ok(false),
        Some(JsonValue::Bool(b)) => Ok(*b),
        Some(_) => Err(internal_field_msg(k)),
    }
}

fn get_internal_u8(entries: &Vec<(String, JsonValue)>, k: &str) -> (r: Result<u8, String>)
    ensures
        match r {
            Ok(b) => internal_u8(json_view_entries(entries@), k@) == Ok::<u8, Seq<char>>(b),
            Err(m) => internal_u8(json_view_entries(entries@), k@) == Err::<u8, Seq<char>>(m@),
        },
{
    match entries_get(entries, &String::from_str(k)) {
        None => Ok(0),
        Some(JsonValue::Uint(n)) => {
            if *n <= 255 {
                Ok(*n as u8)
            } else {
                Err(internal_field_msg(k))
            }
        },
        Some(_) => Err(internal_field_msg(k)),
    }
}

fn get_internal_opt_str(entries: &Vec<(String, JsonValue)>, k: &str) -> (r: Result<
    Option<String>,
    String,
>)
    ensures
        match r {
            Ok(s) => internal_opt_str(json_view_entries(entries@), k@) == Ok::<
                Option<Seq<char>>,
                Seq<char>,
            >(opt_string_view(s)),
            Err(m) => internal_opt_str(json_view_entries(entries@), k@) == Err::<
                Option<Seq<char>>,
                Seq<char>,
            >(m@),
        },
{
    match entries_get(entries, &String::from_str(k)) {
        None => Ok(None),
        Some(JsonValue::Null) => Ok(None),
        Some(JsonValue::Str(s)) => Ok(Some(s.clone())),
        Some(_) => Err(internal_field_msg(k)),
    }
}

#[verifier::loop_isolation(false)]
fn get_internal_str_list(entries: &Vec<(String, JsonValue)>, k: &str) -> (r: Result<
    Vec<String>,
    String,
>)
    ensures
        match r {
            Ok(s) => internal_str_list(json_view_entries(entries@), k@) == Ok::<
                Seq<Seq<char>>,
                Seq<char>,
            >(string_views(s@)),
            Err(m) => internal_str_list(json_view_entries(entries@), k@) == Err::<
                Seq<Seq<char>>,
                Seq<char>,
            >(m@),
        },
{
    let items = match entries_get(entries, &String::from_str(k)) {
        None => {
            let out: Vec<String> = Vec::new();
            proof {
                assert(string_views(out@) =~= Seq::<Seq<char>>::empty());
            }
            return Ok(out);
        },
        Some(JsonValue::List(items)) => items,
        Some(_) => {
            return Err(internal_field_msg(k));
        },
    };
    let ghost iv = json_view_seq(items@);
    proof {
        lemma_json_view_seq(items@);
    }
    let mut out: Vec<String> = Vec::new();
    let mut i: usize = 0;
    while i < items.len()
        invariant
            i <= items@.len(),
            out@.len() == i as int,
            forall|j: int| 0 <= j < i as int ==> iv[j] is Str && out@[j]@ == iv[j]->Str_0,
        decreases items@.len() - i,
    {
        match &items[i] {
            JsonValue::Str(s) => {
                out.push(s.clone());
            },
            _ => {
                proof {
                    assert(iv[i as int] == json_view(items@[i as int]));
                    assert(!all_strings(iv));
                }
                return Err(internal_field_msg(k));
            },
        }
        i += 1;
    }
    proof {
        assert(string_views(out@) =~= string_items(iv));
    }
    Ok(out)
}

/// The reserved fields read from the raw input document, as
/// [`parse_internal`] says.
pub(crate) fn parse_internal_args(entries: &Vec<(String, JsonValue)>) -> (r: Result<
    InternalArgs,
    String,
>)
    ensures
        match r {
            Ok(args) => parse_internal(json_view_entries(entries@)) == Ok::<
                InternalArgsView,
                Seq<char>,
            >(args@),
            Err(m) => parse_internal(json_view_entries(entries@)) == Err::<
                InternalArgsView,
                Seq<char>,
            >(m@),
        },
{
    let no_log = match get_internal_bool(entries, "_ansible_no_log") {
        Ok(v) => v,
        Err(m) => {
            return Err(m);
        },
    };
    let debug = match get_internal_bool(entries, "_ansible_debug") {
        Ok(v) => v,
        Err(m) => {
            return Err(m);
        },
    };
    let check_mode = match get_internal_bool(entries, "_ansible_check_mode") {
        Ok(v) => v,
        Err(m) => {
            return Err(m);
        },
    };
    let diff = match get_internal_bool(entries, "_ansible_diff") {
        Ok(v) => v,
        Err(m) => {
            return Err(m);
        },
    };
    let verbosity = match get_internal_u8(entries, "_ansible_verbosity") {
        Ok(v) => v,
        Err(m) => {
            return Err(m);
        },
    };
    let socket = match get_internal_opt_str(entries, "_ansible_socket") {
        Ok(v) => v,
        Err(m) => {
            return Err(m);
        },
    };
    let target_log_info = match get_internal_opt_str(entries, "_ansible_target_log_info") {
        Ok(v) => v,
        Err(m) => {
            return Err(m);
        },
    };
    let ignore_unknown_opts = match get_internal_bool(entries, "_ansible_ignore_unknown_opts") {
        Ok(v) => v,
        Err(m) => {
            return Err(m);
        },
    };
    let keep_remote_files = match get_internal_bool(entries, "_ansible_keep_remote_files") {
        Ok(v) => v,
        Err(m) => {
            return Err(m);
        },
    };
    let string_conversion_action = match get_internal_opt_str(
        entries,
        "_ansible_string_conversion_action",
    ) {
        Ok(v) => v,
        Err(m) => {
            return Err(m);
        },
    };
    let version = match get_internal_opt_str(entries, "_ansible_version") {
        Ok(v) => v,
        Err(m) => {
            return Err(m);
        },
    };
    let module_name = match get_internal_opt_str(entries, "_ansible_module_name") {
        Ok(v) => v,
        Err(m) => {
            return Err(m);
        },
    };
    let syslog_facility = match get_internal_opt_str(entries, "_ansible_syslog_facility") {
        Ok(v) => v,
        Err(m) => {
            return Err(m);
        },
    };
    let selinux_special_fs = match get_internal_str_list(entries, "_ansible_selinux_special_fs") {
        Ok(v) => v,
        Err(m) => {
            return Err(m);
        },
    };
    let shell_executable = match get_internal_opt_str(entries, "_ansible_shell_executable") {
        Ok(v) => v,
        Err(m) => {
            return Err(m);
        },
    };
    let tmpdir = match get_internal_opt_str(entries, "_ansible_tmpdir") {
        Ok(v) => v,
        Err(m) => {
            return Err(m);
        },
    };
    let remote_tmp = match get_internal_opt_str(entries, "_ansible_remote_tmp") {
        Ok(v) => v,
        Err(m) => {
            return Err(m);
        },
    };
    let r = InternalArgs {
        no_log,
        debug,
        check_mode,
        diff,
        verbosity,
        socket,
        target_log_info,
        ignore_unknown_opts,
        keep_remote_files,
        string_conversion_action,
        version,
        module_name,
        syslog_facility,
        selinux_special_fs,
        shell_executable,
        tmpdir,
        remote_tmp,
    };
    proof {
        assert(r@ =~= internal_args_of(json_view_entries(entries@)));
    }
    Ok(r)
}

/// The placeholder that output shows in place of a secret value.
pub open spec fn no_log_sentinel() -> Seq<char> {
    "VALUE_SPECIFIED_IN_NO_LOG_PARAMETER"@
}

/// A result value as output shows it: the sentinel when the field names a
/// secret parameter, the value itself otherwise.
pub open spec fn mask_value(
    params: Seq<(Seq<char>, ArgumentValueView)>,
    k: Seq<char>,
    v: JsonView,
) -> JsonView {
    match kv_lookup(params, k) {
        Some(p) => if p.no_log {
            JsonView::Str(no_log_sentinel())
        } else {
            v
        },
        None => v,
    }
}

/// The result fields with every secret-named field masked.
pub open spec fn masked_entries(
    params: Seq<(Seq<char>, ArgumentValueView)>,
    entries: Seq<(Seq<char>, JsonView)>,
) -> Seq<(Seq<char>, JsonView)> {
    Seq::new(entries.len(), |i: int| (entries[i].0, mask_value(params, entries[i].0, entries[i].1)))
}

/// The success document: `changed` and `failed` first, then the caller's
/// result fields with secrets masked, in the caller's order.
pub open spec fn exit_document(
    params: Seq<(Seq<char>, ArgumentValueView)>,
    result: Seq<(Seq<char>, JsonView)>,
    changed: bool,
) -> JsonView {
    JsonView::Dict(
        seq![("changed"@, JsonView::Bool(changed)), ("failed"@, JsonView::Bool(false))]
            + masked_entries(params, result),
    )
}

/// The JSON text of the success document.
pub open spec fn exit_text(
    params: Seq<(Seq<char>, ArgumentValueView)>,
    result: Seq<(Seq<char>, JsonView)>,
    changed: bool,
) -> Seq<char> {
    json_text(exit_document(params, result, changed))
}

/// The JSON text of the failure document for the message `msg`.
pub open spec fn fail_text(msg: Seq<char>) -> Seq<char> {
    "{\"msg\":"@ + json_string_text(msg) + ",\"changed\":false,\"failed\":true}"@
}

/// A validated module: its normalized parameters and the internal runtime
/// metadata of the invocation.
#[derive(Debug)]
pub struct AnsibleModule {
    /// The normalized parameters the input was validated into.
    pub params: ModuleArgs,
    /// The reserved-prefix runtime metadata, handed through as parsed.
    pub internal_params: InternalArgs,
}

/// The mathematical shape of an [`AnsibleModule`].
#[verifier::ext_equal]
pub struct AnsibleModuleView {
    pub params: Seq<(Seq<char>, ArgumentValueView)>,
    pub internal_params: InternalArgsView,
}

impl View for AnsibleModule {
    type V = AnsibleModuleView;

    open spec fn view(&self) -> AnsibleModuleView {
        AnsibleModuleView { params: self.params@, internal_params: self.internal_params@ }
    }
}

impl Default for AnsibleModule {
    fn default() -> (r: Self)
        ensures
            r@.params == Seq::<(Seq<char>, ArgumentValueView)>::empty(),
            r@.internal_params == internal_defaults(),
    {
        AnsibleModule { params: ModuleArgs::new(), internal_params: InternalArgs::default() }
    }
}

impl AnsibleModule {
    /// The success document for the given result fields, rendered as JSON
    /// text with every secret-named field masked, as [`exit_text`] says.
    #[verifier::loop_isolation(false)]
    pub fn exit_json_output(&self, result: &Vec<(String, JsonValue)>, changed: bool) -> (out:
        String)
        ensures
            out@ == exit_text(self@.params, json_view_entries(result@), changed),
    {
        proof {
            lemma_json_view_entries(result@);
        }
        let ghost rv = json_view_entries(result@);
        let mut doc: Vec<(String, JsonValue)> = Vec::new();
        doc.push((String::from_str("changed"), JsonValue::Bool(changed)));
        doc.push((String::from_str("failed"), JsonValue::Bool(false)));
        let ghost header = seq![
            ("changed"@, JsonView::Bool(changed)),
            ("failed"@, JsonView::Bool(false)),
        ];
        proof {
            lemma_json_view_entries(doc@);
            assert(json_view_entries(doc@) =~= header + masked_entries(self@.params, rv).subrange(
                0,
                0,
            ));
        }
        let mut i: usize = 0;
        while i < result.len()
            invariant
                i <= result@.len(),
                doc@.len() == 2 + i as int,
                json_view_entries(doc@) =~= header + masked_entries(self@.params, rv).subrange(
                    0,
                    i as int,
                ),
            decreases result@.len() - i,
        {
            let ghost pre = doc@;
            let name = &result[i].0;
            let masked: JsonValue = match self.params.get(name.as_str()) {
                Some(p) => {
                    if p.no_log {
                        JsonValue::Str(String::from_str("VALUE_SPECIFIED_IN_NO_LOG_PARAMETER"))
                    } else {
                        result[i].1.clone()
                    }
                },
                None => result[i].1.clone(),
            };
            doc.push((name.clone(), masked));
            proof {
                lemma_json_view_entries(pre);
                lemma_json_view_entries(doc@);
                assert(json_view_entries(doc@) =~= json_view_entries(pre).push(
                    (name@, json_view(masked)),
                ));
                assert(masked_entries(self@.params, rv).subrange(0, i as int + 1) =~= masked_entries(
                    self@.params,
                    rv,
                ).subrange(0, i as int).push((rv[i as int].0, mask_value(
                    self@.params,
                    rv[i as int].0,
                    rv[i as int].1,
                ))));
            }
            i += 1;
        }
        proof {
            assert(masked_entries(self@.params, rv).subrange(
                0,
                masked_entries(self@.params, rv).len() as int,
            ) =~= masked_entries(self@.params, rv));
            assert(json_view_entries(doc@) =~= header + masked_entries(self@.params, rv));
        }
        let value = JsonValue::Dict(doc);
        render_json(&value)
    }

    /// The failure document for the message `msg`, rendered as JSON text, as
    /// [`fail_text`] says.
    pub fn fail_json_output(msg: &str) -> (out: String)
        ensures
            out@ == fail_text(msg@),
    {
        let mut out = String::from_str("{\"msg\":");
        push_json_string(&mut out, msg);
        out.append(",\"changed\":false,\"failed\":true}");
        out
    }
}

/// Masking law: in the success document, a result field whose name matches a
/// secret-flagged parameter is always rendered as the sentinel, whatever
/// `changed` says; every other field keeps its value; and the document opens
/// with `changed` and `failed`.
pub proof fn lemma_secret_fields_masked(
    params: Seq<(Seq<char>, ArgumentValueView)>,
    result: Seq<(Seq<char>, JsonView)>,
    changed: bool,
)
    ensures
        exit_document(params, result, changed) matches JsonView::Dict(fields) && fields.len()
            == result.len() + 2,
        exit_document(params, result, changed)->Dict_0[0] == ("changed"@, JsonView::Bool(changed)),
        exit_document(params, result, changed)->Dict_0[1] == ("failed"@, JsonView::Bool(false)),
        forall|i: int|
            0 <= i < result.len() && (kv_lookup(params, result[i].0) matches Some(p) && p.no_log)
                ==> exit_document(params, result, changed)->Dict_0[i + 2] == (
            result[i].0,
            JsonView::Str(no_log_sentinel()),
            ),
        forall|i: int|
            0 <= i < result.len() && !(kv_lookup(params, result[i].0) matches Some(p) && p.no_log)
                ==> exit_document(params, result, changed)->Dict_0[i + 2] == result[i],
{
}

} // verus!
