//! Command-line parsing: port, drive unit, bus type, step mode and preset,
//! with the defaults each preset implies; and the status log line prefix.
use vstd::prelude::*;
use vstd::string::*;
use crate::protocol::{preset_for_clean_name, strip_separators, BusType, PresetProfile, StepMode};
use crate::text::{has_prefix, lowercase_spec, std_str_to_lowercase, str_eq, strip_prefix_str, trim_spec};

verus! {

/// Whether a character is an ASCII decimal digit.
pub open spec fn is_digit(c: char) -> bool {
    '0' <= c && c <= '9'
}

/// Value of a run of decimal digits.
pub open spec fn digits_value(s: Seq<char>) -> nat
    decreases s.len(),
{
    if s.len() == 0 {
        0
    } else {
        digits_value(s.drop_last()) * 10 + ((s.last() as u32) - 48) as nat
    }
}

/// Whether every character is a decimal digit.
pub open spec fn all_digits(d: Seq<char>) -> bool {
    forall|k: int| 0 <= k < d.len() ==> is_digit(#[trigger] d[k])
}

/// The text after an optional leading `+`.
pub open spec fn unsigned_part(s: Seq<char>) -> Seq<char> {
    if s.len() > 0 && s[0] == '+' {
        s.drop_first()
    } else {
        s
    }
}

/// What `str::parse::<u8>` accepts: an optional `+`, then at least one
/// decimal digit, with a value up to 255.
pub open spec fn u8_word(s: Seq<char>) -> Option<u8> {
    let d = unsigned_part(s);
    if d.len() > 0 && all_digits(d) && digits_value(d) <= 255 {
        Some(digits_value(d) as u8)
    } else {
        None
    }
}

proof fn lemma_digits_value_grows(s: Seq<char>, k: nat)
    requires
        k <= s.len(),
        forall|j: int| 0 <= j < s.len() ==> is_digit(#[trigger] s[j]),
    ensures
        digits_value(s.subrange(0, k as int)) <= digits_value(s),
    decreases s.len() - k,
{
    if k < s.len() {
        assert(s.drop_last().subrange(0, k as int) =~= s.subrange(0, k as int));
        lemma_digits_value_grows(s.drop_last(), k);
    } else {
        assert(s.subrange(0, k as int) =~= s);
    }
}

/// Parses a decimal byte the way `str::parse::<u8>` does (see `u8_word`).
pub fn parse_u8(s: &str) -> (r: Option<u8>)
    ensures
        r == u8_word(s@),
{
    let n = s.unicode_len();
    let mut start: usize = 0;
    if n > 0 && s.get_char(0) == '+' {
        start = 1;
    }
    let ghost d = unsigned_part(s@);
    assert(d =~= s@.subrange(start as int, n as int));
    if start >= n {
        return None;
    }
    let mut v: u32 = 0;
    let mut i: usize = start;
    while i < n
        invariant
            start <= i <= n,
            n == s@.len(),
            d == s@.subrange(start as int, n as int),
            d == unsigned_part(s@),
            forall|k: int| start <= k < i ==> is_digit(#[trigger] s@[k]),
            v as nat == digits_value(s@.subrange(start as int, i as int)),
            v <= 255,
        decreases n - i,
    {
        let c = s.get_char(i);
        if !('0' <= c && c <= '9') {
            proof {
                assert(d[i - start] == s@[i as int]);
                assert(!is_digit(d[i - start]));
                assert(!all_digits(d));
            }
            assert(u8_word(s@) is None);
            return None;
        }
        let digit: u32 = (c as u32) - 48;
        assert(s@.subrange(start as int, i + 1).drop_last() =~= s@.subrange(start as int, i as int));
        let nv: u32 = v * 10 + digit;
        assert(digits_value(s@.subrange(start as int, i + 1)) == nv);
        if nv > 255 {
            proof {
                assert forall|k: int| start <= k < i + 1 implies is_digit(#[trigger] s@[k]) by {}
                if all_digits(d) {
                    lemma_digits_value_grows(d, (i + 1 - start) as nat);
                    assert(d.subrange(0, (i + 1 - start) as int) =~= s@.subrange(start as int, i + 1));
                    assert(digits_value(d) > 255);
                }
            }
            assert(u8_word(s@) is None);
            return None;
        }
        v = nv;
        i = i + 1;
    }
    assert(s@.subrange(start as int, n as int) =~= d);
    Some(v as u8)
}

/// Bus named by a `--bus` value: shugart/amiga or pc/ibm/ibmpc, compared
/// after lower-casing.
pub open spec fn bus_word(s: Seq<char>) -> Option<BusType> {
    let v = lowercase_spec(s);
    if v == "shugart"@ || v == "amiga"@ {
        Some(BusType::Shugart)
    } else if v == "pc"@ || v == "ibm"@ || v == "ibmpc"@ {
        Some(BusType::IbmPc)
    } else {
        None
    }
}

/// Step mode named by a `--step` value, compared after lower-casing.
pub open spec fn step_word(s: Seq<char>) -> Option<StepMode> {
    let v = lowercase_spec(s);
    if v == "double"@ || v == "2"@ || v == "2:1"@ || v == "48"@ || v == "48tpi"@ {
        Some(StepMode::Double)
    } else if v == "single"@ || v == "1"@ || v == "1:1"@ || v == "96"@ || v == "135"@ {
        Some(StepMode::Single)
    } else {
        None
    }
}

/// Preset named by a `--preset` value (as `PresetProfile::from_str_loose`).
pub open spec fn preset_word(s: Seq<char>) -> Option<PresetProfile> {
    preset_for_clean_name(strip_separators(lowercase_spec(trim_spec(s))))
}

/// What parsing has gathered so far: port, raw unit, preset, bus, step.
pub type CliModel = (Option<Seq<char>>, u8, Option<PresetProfile>, Option<BusType>, Option<StepMode>);

/// `a` with `x` when `x` is present.
pub open spec fn or_keep<T>(x: Option<T>, a: Option<T>) -> Option<T> {
    match x {
        Some(v) => Some(v),
        None => a,
    }
}

/// A drive unit clamped to 3.
pub open spec fn unit3(u: u8) -> u8 {
    if u > 3 { 3 } else { u }
}

/// Rest of `a` after the prefix `p`.
pub open spec fn after(a: Seq<char>, p: Seq<char>) -> Seq<char> {
    a.subrange(p.len() as int, a.len() as int)
}

/// One argument at `i`: the new state and the index of the last argument
/// it used (`i`, or `i + 1` when it takes the next argument as its value).
pub open spec fn cli_arg(args: Seq<Seq<char>>, i: int, st: CliModel) -> (CliModel, int) {
    let a = args[i];
    let has_next = i + 1 < args.len();
    let next = args[i + 1];
    let (port, unit, preset, bus, step) = st;
    if a == "--preset"@ {
        if has_next { ((port, unit, or_keep(preset_word(next), preset), bus, step), i + 1) } else { (st, i) }
    } else if has_prefix(a, "--preset="@) {
        ((port, unit, or_keep(preset_word(after(a, "--preset="@)), preset), bus, step), i)
    } else if a == "-p"@ {
        if has_next {
            match preset_word(next) {
                Some(p) => ((port, unit, Some(p), bus, step), i + 1),
                None => ((Some(next), unit, preset, bus, step), i + 1),
            }
        } else {
            (st, i)
        }
    } else if has_prefix(a, "-p="@) {
        match preset_word(after(a, "-p="@)) {
            Some(p) => ((port, unit, Some(p), bus, step), i),
            None => ((Some(after(a, "-p="@)), unit, preset, bus, step), i),
        }
    } else if a == "--drive"@ || a == "-d"@ {
        if has_next {
            match u8_word(next) {
                Some(u) => ((port, unit3(u), preset, bus, step), i + 1),
                None => (st, i + 1),
            }
        } else {
            (st, i)
        }
    } else if has_prefix(a, "--drive="@) || has_prefix(a, "-d="@) {
        let rest = if has_prefix(a, "--drive="@) { after(a, "--drive="@) } else { after(a, "-d="@) };
        match u8_word(rest) {
            Some(u) => ((port, unit3(u), preset, bus, step), i),
            None => (st, i),
        }
    } else if a == "--bus"@ || a == "-b"@ || a == "--bus-type"@ {
        if has_next { ((port, unit, preset, or_keep(bus_word(next), bus), step), i + 1) } else { (st, i) }
    } else if has_prefix(a, "--bus="@) {
        ((port, unit, preset, or_keep(bus_word(after(a, "--bus="@)), bus), step), i)
    } else if has_prefix(a, "-b="@) {
        ((port, unit, preset, or_keep(bus_word(after(a, "-b="@)), bus), step), i)
    } else if has_prefix(a, "--bus-type="@) {
        ((port, unit, preset, or_keep(bus_word(after(a, "--bus-type="@)), bus), step), i)
    } else if a == "--shugart"@ {
        ((port, unit, preset, Some(BusType::Shugart), step), i)
    } else if a == "--pc"@ || a == "--ibmpc"@ {
        ((port, unit, preset, Some(BusType::IbmPc), step), i)
    } else if a == "--step"@ || a == "-s"@ || a == "--step-mode"@ {
        if has_next { ((port, unit, preset, bus, or_keep(step_word(next), step)), i + 1) } else { (st, i) }
    } else if has_prefix(a, "--step="@) {
        ((port, unit, preset, bus, or_keep(step_word(after(a, "--step="@)), step)), i)
    } else if has_prefix(a, "-s="@) {
        ((port, unit, preset, bus, or_keep(step_word(after(a, "-s="@)), step)), i)
    } else if has_prefix(a, "--step-mode="@) {
        ((port, unit, preset, bus, or_keep(step_word(after(a, "--step-mode="@)), step)), i)
    } else if a == "--double-step"@ || a == "--doublestep"@ {
        ((port, unit, preset, bus, Some(StepMode::Double)), i)
    } else if a == "--single-step"@ || a == "--singlestep"@ {
        ((port, unit, preset, bus, Some(StepMode::Single)), i)
    } else if a == "--port"@ {
        if has_next { ((Some(next), unit, preset, bus, step), i + 1) } else { (st, i) }
    } else if has_prefix(a, "--port="@) {
        ((Some(after(a, "--port="@)), unit, preset, bus, step), i)
    } else if !(a.len() > 0 && a[0] == '-') && port is None {
        ((Some(a), unit, preset, bus, step), i)
    } else {
        (st, i)
    }
}

/// Parses the arguments from index `i` on.
pub open spec fn cli_scan(args: Seq<Seq<char>>, i: int, st: CliModel) -> CliModel
    decreases args.len() - i,
{
    if 0 <= i < args.len() {
        let (st2, j) = cli_arg(args, i, st);
        if j >= i {
            cli_scan(args, j + 1, st2)
        } else {
            st2
        }
    } else {
        st
    }
}

/// The string contents of the arguments.
pub open spec fn arg_texts(args: Seq<String>) -> Seq<Seq<char>> {
    Seq::new(args.len(), |k: int| args[k]@)
}

/// The parsed options with their defaults: preset Pc35Hd; bus and step from
/// the preset; unit clamped to 1 on the PC bus and 3 on Shugart.
pub open spec fn cli_result(args: Seq<String>) -> (Option<Seq<char>>, u8, BusType, StepMode, PresetProfile) {
    let (port, unit, preset, bus, step) = cli_scan(arg_texts(args), 1, (None, 0, None, None, None));
    let p = match preset {
        Some(p) => p,
        None => PresetProfile::Pc35Hd,
    };
    let b = match bus {
        Some(b) => b,
        None => p.spec_default_bus(),
    };
    let s = match step {
        Some(s) => s,
        None => p.spec_default_step(),
    };
    let max_unit: u8 = if b == BusType::IbmPc { 1 } else { 3 };
    (port, if unit > max_unit { max_unit } else { unit }, b, s, p)
}

/// Whether an argument is an option that names the bus.
pub open spec fn is_bus_option(a: Seq<char>) -> bool {
    a == "--bus"@ || a == "-b"@ || a == "--bus-type"@ || has_prefix(a, "--bus="@) || has_prefix(a, "-b="@)
        || has_prefix(a, "--bus-type="@) || a == "--shugart"@ || a == "--pc"@ || a == "--ibmpc"@
}

/// Whether an argument is an option that names the step mode.
pub open spec fn is_step_option(a: Seq<char>) -> bool {
    a == "--step"@ || a == "-s"@ || a == "--step-mode"@ || has_prefix(a, "--step="@) || has_prefix(a, "-s="@)
        || has_prefix(a, "--step-mode="@) || a == "--double-step"@ || a == "--doublestep"@ || a
        == "--single-step"@ || a == "--singlestep"@
}

/// Whether an argument is an option that names the preset.
pub open spec fn is_preset_option(a: Seq<char>) -> bool {
    a == "--preset"@ || has_prefix(a, "--preset="@) || a == "-p"@ || has_prefix(a, "-p="@)
}

/// One argument that is not a bus, step or preset option leaves that field.
#[verifier::spinoff_prover]
#[verifier::rlimit(60)]
proof fn lemma_arg_keeps(args: Seq<Seq<char>>, i: int, st: CliModel)
    requires
        0 <= i < args.len(),
    ensures
        !is_bus_option(args[i]) ==> cli_arg(args, i, st).0.3 == st.3,
        !is_step_option(args[i]) ==> cli_arg(args, i, st).0.4 == st.4,
        !is_preset_option(args[i]) ==> cli_arg(args, i, st).0.2 == st.2,
{
}

proof fn lemma_scan_untouched(args: Seq<Seq<char>>, i: int, st: CliModel)
    requires
        1 <= i,
    ensures
        (forall|k: int| i <= k < args.len() ==> !is_bus_option(#[trigger] args[k])) ==> cli_scan(args, i, st).3 == st.3,
        (forall|k: int| i <= k < args.len() ==> !is_step_option(#[trigger] args[k])) ==> cli_scan(args, i, st).4 == st.4,
        (forall|k: int| i <= k < args.len() ==> !is_preset_option(#[trigger] args[k])) ==> cli_scan(args, i, st).2 == st.2,
    decreases args.len() - i,
{
    if 0 <= i < args.len() {
        let (st2, j) = cli_arg(args, i, st);
        lemma_arg_keeps(args, i, st);
        if j >= i {
            lemma_scan_untouched(args, j + 1, st2);
            assert(args[i] == args[i]);
        }
    }
}

proof fn lemma_scan_same_tail(a: Seq<Seq<char>>, b: Seq<Seq<char>>, i: int, st: CliModel)
    requires
        1 <= i,
        a.len() == b.len(),
        forall|k: int| 1 <= k < a.len() ==> a[k] == b[k],
    ensures
        cli_scan(a, i, st) == cli_scan(b, i, st),
    decreases a.len() - i,
{
    if 0 <= i < a.len() {
        assert(a[i] == b[i]);
        if i + 1 < a.len() {
            assert(a[i + 1] == b[i + 1]);
        }
        assert(cli_arg(a, i, st) == cli_arg(b, i, st));
        let (st2, j) = cli_arg(a, i, st);
        if j >= i {
            lemma_scan_same_tail(a, b, j + 1, st2);
        }
    }
}

/// Law: the parsed unit never exceeds the bus's highest unit (1 on the PC
/// bus, 3 on Shugart); without a preset option the preset is `Pc35Hd`;
/// without a bus option, or a step option, the preset's default bus, or
/// step mode, applies; the first argument (the program) is ignored.
pub proof fn lemma_cli_defaults(args: Seq<String>, program: String)
    ensures
        cli_result(args).1 <= (if cli_result(args).2 == BusType::IbmPc { 1u8 } else { 3u8 }),
        (forall|k: int| 1 <= k < args.len() ==> !is_preset_option(#[trigger] args[k]@)) ==> cli_result(args).4
            == PresetProfile::Pc35Hd,
        (forall|k: int| 1 <= k < args.len() ==> !is_bus_option(#[trigger] args[k]@)) ==> cli_result(args).2
            == cli_result(args).4.spec_default_bus(),
        (forall|k: int| 1 <= k < args.len() ==> !is_step_option(#[trigger] args[k]@)) ==> cli_result(args).3
            == cli_result(args).4.spec_default_step(),
        args.len() > 0 ==> cli_result(args.update(0, program)) == cli_result(args),
{
    let t = arg_texts(args);
    let init: CliModel = (None, 0, None, None, None);
    lemma_scan_untouched(t, 1, init);
    if forall|k: int| 1 <= k < args.len() ==> !is_preset_option(#[trigger] args[k]@) {
        assert forall|k: int| 1 <= k < t.len() implies !is_preset_option(#[trigger] t[k]) by {
            assert(t[k] == args[k]@);
        }
    }
    if forall|k: int| 1 <= k < args.len() ==> !is_bus_option(#[trigger] args[k]@) {
        assert forall|k: int| 1 <= k < t.len() implies !is_bus_option(#[trigger] t[k]) by {
            assert(t[k] == args[k]@);
        }
    }
    if forall|k: int| 1 <= k < args.len() ==> !is_step_option(#[trigger] args[k]@) {
        assert forall|k: int| 1 <= k < t.len() implies !is_step_option(#[trigger] t[k]) by {
            assert(t[k] == args[k]@);
        }
    }
    if args.len() > 0 {
        let u = arg_texts(args.update(0, program));
        assert forall|k: int| 1 <= k < t.len() implies t[k] == u[k] by {}
        lemma_scan_same_tail(t, u, 1, init);
    }
}

/// The bus named by a value (see `bus_word`).
fn parse_bus_word(s: &str) -> (r: Option<BusType>)
    ensures
        r == bus_word(s@),
{
    let v = std_str_to_lowercase(s);
    let vs = v.as_str();
    if str_eq(vs, "shugart") || str_eq(vs, "amiga") {
        Some(BusType::Shugart)
    } else if str_eq(vs, "pc") || str_eq(vs, "ibm") || str_eq(vs, "ibmpc") {
        Some(BusType::IbmPc)
    } else {
        None
    }
}

/// The step mode named by a value (see `step_word`).
fn parse_step_word(s: &str) -> (r: Option<StepMode>)
    ensures
        r == step_word(s@),
{
    let v = std_str_to_lowercase(s);
    let vs = v.as_str();
    if str_eq(vs, "double") || str_eq(vs, "2") || str_eq(vs, "2:1") || str_eq(vs, "48") || str_eq(vs, "48tpi") {
        Some(StepMode::Double)
    } else if str_eq(vs, "single") || str_eq(vs, "1") || str_eq(vs, "1:1") || str_eq(vs, "96") || str_eq(vs, "135") {
        Some(StepMode::Single)
    } else {
        None
    }
}

/// What parsing has gathered so far.
struct CliAcc {
    port: Option<String>,
    unit: u8,
    preset: Option<PresetProfile>,
    bus: Option<BusType>,
    step: Option<StepMode>,
}

/// The model of the gathered options.
spec fn acc_model(a: CliAcc) -> CliModel {
    (
        match a.port {
            Some(p) => Some(p@),
            None => None,
        },
        a.unit,
        a.preset,
        a.bus,
        a.step,
    )
}

fn keep_preset(x: Option<PresetProfile>, a: Option<PresetProfile>) -> (r: Option<PresetProfile>)
    ensures
        r == or_keep(x, a),
{
    match x {
        Some(v) => Some(v),
        None => a,
    }
}

fn keep_bus(x: Option<BusType>, a: Option<BusType>) -> (r: Option<BusType>)
    ensures
        r == or_keep(x, a),
{
    match x {
        Some(v) => Some(v),
        None => a,
    }
}

fn keep_step(x: Option<StepMode>, a: Option<StepMode>) -> (r: Option<StepMode>)
    ensures
        r == or_keep(x, a),
{
    match x {
        Some(v) => Some(v),
        None => a,
    }
}

fn clamp_unit3(u: u8) -> (r: u8)
    ensures
        r == unit3(u),
{
    if u > 3 {
        3
    } else {
        u
    }
}

/// Handles the argument at `i` (see `cli_arg`); returns the index of the
/// last argument used.
#[verifier::rlimit(40)]
fn cli_arg_exec(args: &[String], i: usize, acc: &mut CliAcc) -> (j: usize)
    requires
        i < args@.len(),
    ensures
        (acc_model(*final(acc)), j as int) == cli_arg(arg_texts(args@), i as int, acc_model(*old(acc))),
{
    let ghost texts = arg_texts(args@);
    let a: &str = args[i].as_str();
    assert(a@ == texts[i as int]);
    let has_next = i + 1 < args.len();
    if has_next {
        assert(args[i + 1 as int]@ == texts[i + 1]);
    }
    if str_eq(a, "--preset") {
        if has_next {
            let p = PresetProfile::from_str_loose(args[i + 1].as_str());
            acc.preset = keep_preset(p, acc.preset);
            return i + 1;
        }
        return i;
    }
    if let Some(rest) = strip_prefix_str(a, "--preset=") {
        let p = PresetProfile::from_str_loose(rest);
        acc.preset = keep_preset(p, acc.preset);
        return i;
    }
    if str_eq(a, "-p") {
        if has_next {
            match PresetProfile::from_str_loose(args[i + 1].as_str()) {
                Some(p) => {
                    acc.preset = Some(p);
                },
                None => {
                    acc.port = Some(args[i + 1].clone());
                },
            }
            return i + 1;
        }
        return i;
    }
    if let Some(rest) = strip_prefix_str(a, "-p=") {
        match PresetProfile::from_str_loose(rest) {
            Some(p) => {
                acc.preset = Some(p);
            },
            None => {
                acc.port = Some(String::from_str(rest));
            },
        }
        return i;
    }
    cli_arg_exec_rest(args, i, acc)
}

/// Handles the drive, bus, step and port arguments (the later branches of
/// `cli_arg`).
#[verifier::rlimit(60)]
fn cli_arg_exec_rest(args: &[String], i: usize, acc: &mut CliAcc) -> (j: usize)
    requires
        i < args@.len(),
        !(args@[i as int]@ == "--preset"@),
        !has_prefix(args@[i as int]@, "--preset="@),
        !(args@[i as int]@ == "-p"@),
        !has_prefix(args@[i as int]@, "-p="@),
    ensures
        (acc_model(*final(acc)), j as int) == cli_arg(arg_texts(args@), i as int, acc_model(*old(acc))),
{
    let ghost texts = arg_texts(args@);
    let a: &str = args[i].as_str();
    assert(a@ == texts[i as int]);
    let has_next = i + 1 < args.len();
    if has_next {
        assert(args[i + 1 as int]@ == texts[i + 1]);
    }
    if str_eq(a, "--drive") || str_eq(a, "-d") {
        if has_next {
            if let Some(u) = parse_u8(args[i + 1].as_str()) {
                acc.unit = clamp_unit3(u);
            }
            return i + 1;
        }
        return i;
    }
    if let Some(rest) = strip_prefix_str(a, "--drive=") {
        if let Some(u) = parse_u8(rest) {
            acc.unit = clamp_unit3(u);
        }
        return i;
    }
    if let Some(rest) = strip_prefix_str(a, "-d=") {
        if let Some(u) = parse_u8(rest) {
            acc.unit = clamp_unit3(u);
        }
        return i;
    }
    cli_arg_exec_bus(args, i, acc)
}

/// Handles the bus arguments and beyond.
#[verifier::rlimit(60)]
fn cli_arg_exec_bus(args: &[String], i: usize, acc: &mut CliAcc) -> (j: usize)
    requires
        i < args@.len(),
        !(args@[i as int]@ == "--preset"@),
        !has_prefix(args@[i as int]@, "--preset="@),
        !(args@[i as int]@ == "-p"@),
        !has_prefix(args@[i as int]@, "-p="@),
        !(args@[i as int]@ == "--drive"@ || args@[i as int]@ == "-d"@),
        !(has_prefix(args@[i as int]@, "--drive="@) || has_prefix(args@[i as int]@, "-d="@)),
    ensures
        (acc_model(*final(acc)), j as int) == cli_arg(arg_texts(args@), i as int, acc_model(*old(acc))),
{
    let ghost texts = arg_texts(args@);
    let a: &str = args[i].as_str();
    assert(a@ == texts[i as int]);
    let has_next = i + 1 < args.len();
    if has_next {
        assert(args[i + 1 as int]@ == texts[i + 1]);
    }
    if str_eq(a, "--bus") || str_eq(a, "-b") || str_eq(a, "--bus-type") {
        if has_next {
            let b = parse_bus_word(args[i + 1].as_str());
            acc.bus = keep_bus(b, acc.bus);
            return i + 1;
        }
        return i;
    }
    if let Some(rest) = strip_prefix_str(a, "--bus=") {
        acc.bus = keep_bus(parse_bus_word(rest), acc.bus);
        return i;
    }
    if let Some(rest) = strip_prefix_str(a, "-b=") {
        acc.bus = keep_bus(parse_bus_word(rest), acc.bus);
        return i;
    }
    if let Some(rest) = strip_prefix_str(a, "--bus-type=") {
        acc.bus = keep_bus(parse_bus_word(rest), acc.bus);
        return i;
    }
    if str_eq(a, "--shugart") {
        acc.bus = Some(BusType::Shugart);
        return i;
    }
    if str_eq(a, "--pc") || str_eq(a, "--ibmpc") {
        acc.bus = Some(BusType::IbmPc);
        return i;
    }
    cli_arg_exec_step(args, i, acc)
}

/// Handles the step and port arguments.
#[verifier::rlimit(60)]
fn cli_arg_exec_step(args: &[String], i: usize, acc: &mut CliAcc) -> (j: usize)
    requires
        i < args@.len(),
        !(args@[i as int]@ == "--preset"@),
        !has_prefix(args@[i as int]@, "--preset="@),
        !(args@[i as int]@ == "-p"@),
        !has_prefix(args@[i as int]@, "-p="@),
        !(args@[i as int]@ == "--drive"@ || args@[i as int]@ == "-d"@),
        !(has_prefix(args@[i as int]@, "--drive="@) || has_prefix(args@[i as int]@, "-d="@)),
        !(args@[i as int]@ == "--bus"@ || args@[i as int]@ == "-b"@ || args@[i as int]@ == "--bus-type"@),
        !has_prefix(args@[i as int]@, "--bus="@),
        !has_prefix(args@[i as int]@, "-b="@),
        !has_prefix(args@[i as int]@, "--bus-type="@),
        !(args@[i as int]@ == "--shugart"@),
        !(args@[i as int]@ == "--pc"@ || args@[i as int]@ == "--ibmpc"@),
    ensures
        (acc_model(*final(acc)), j as int) == cli_arg(arg_texts(args@), i as int, acc_model(*old(acc))),
{
    let ghost texts = arg_texts(args@);
    let a: &str = args[i].as_str();
    assert(a@ == texts[i as int]);
    let has_next = i + 1 < args.len();
    if has_next {
        assert(args[i + 1 as int]@ == texts[i + 1]);
    }
    if str_eq(a, "--step") || str_eq(a, "-s") || str_eq(a, "--step-mode") {
        if has_next {
            let s = parse_step_word(args[i + 1].as_str());
            acc.step = keep_step(s, acc.step);
            return i + 1;
        }
        return i;
    }
    if let Some(rest) = strip_prefix_str(a, "--step=") {
        acc.step = keep_step(parse_step_word(rest), acc.step);
        return i;
    }
    if let Some(rest) = strip_prefix_str(a, "-s=") {
        acc.step = keep_step(parse_step_word(rest), acc.step);
        return i;
    }
    if let Some(rest) = strip_prefix_str(a, "--step-mode=") {
        acc.step = keep_step(parse_step_word(rest), acc.step);
        return i;
    }
    if str_eq(a, "--double-step") || str_eq(a, "--doublestep") {
        acc.step = Some(StepMode::Double);
        return i;
    }
    if str_eq(a, "--single-step") || str_eq(a, "--singlestep") {
        acc.step = Some(StepMode::Single);
        return i;
    }
    if str_eq(a, "--port") {
        if has_next {
            acc.port = Some(args[i + 1].clone());
            return i + 1;
        }
        return i;
    }
    if let Some(rest) = strip_prefix_str(a, "--port=") {
        acc.port = Some(String::from_str(rest));
        return i;
    }
    let dash = a.unicode_len() > 0 && a.get_char(0) == '-';
    if !dash && acc.port.is_none() {
        acc.port = Some(args[i].clone());
    }
    i
}

/// Parses the command line (`args[0]` is the program): returns the port,
/// the drive unit, the bus type, the step mode and the preset (see
/// `cli_result`).
pub fn parse_cli_args(args: &[String]) -> (r: (Option<String>, u8, BusType, StepMode, PresetProfile))
    ensures
        (
            match r.0 {
                Some(p) => Some(p@),
                None => None,
            },
            r.1,
            r.2,
            r.3,
            r.4,
        ) == cli_result(args@),
{
    let mut acc = CliAcc { port: None, unit: 0, preset: None, bus: None, step: None };
    let n = args.len();
    let mut i: usize = 1;
    while i < n
        invariant
            1 <= i,
            n == args@.len(),
            cli_scan(arg_texts(args@), 1, (None, 0, None, None, None)) == cli_scan(
                arg_texts(args@),
                i as int,
                acc_model(acc),
            ),
        decreases n - i,
    {
        let j = cli_arg_exec(args, i, &mut acc);
        i = j + 1;
    }
    let preset = match acc.preset {
        Some(p) => p,
        None => PresetProfile::Pc35Hd,
    };
    let bus_type = match acc.bus {
        Some(b) => b,
        None => preset.default_bus(),
    };
    let step_mode = match acc.step {
        Some(s) => s,
        None => preset.default_step(),
    };
    let max_unit: u8 = match bus_type {
        BusType::IbmPc => 1,
        BusType::Shugart => 3,
    };
    let drive_unit = if acc.unit > max_unit {
        max_unit
    } else {
        acc.unit
    };
    (acc.port, drive_unit, bus_type, step_mode, preset)
}

/// The status log line: the message itself when it already starts with
/// `Log: `, else `Log: ` followed by it.
pub fn format_log_line(msg: &str) -> (r: String)
    ensures
        r@ == (if has_prefix(msg@, "Log: "@) {
            msg@
        } else {
            "Log: "@ + msg@
        }),
{
    match strip_prefix_str(msg, "Log: ") {
        Some(_) => String::from_str(msg),
        None => {
            let mut out = String::from_str("Log: ");
            out.append(msg);
            out
        },
    }
}


/// The release of this program shown in the banner.
pub open spec fn release_text() -> Seq<char> {
    "0.1.0"@
}

/// The help and version banner for a release.
pub open spec fn banner_text(version: Seq<char>) -> Seq<char> {
    "\u{1F4BE} AlignTesterDiag v"@ + version + "\nReal-time Floppy Drive Diagnostic & Alignment Tool for Greaseweazle\nCopyright (C) 2026 MonSieur JeAn-FReD (GPL-3.0)\n\nUsage: aligntester-diag [OPTIONS] [PORT]\n\nArguments:\n  [PORT]                  Serial port connected to Greaseweazle (e.g. COM3, /dev/ttyACM0)\n\nOptions:\n  -p, --preset <preset>      Select hardware & format preset (pc35hd, pc35dd, pc525hd, pc525ddonhd, pc525dd, amiga, atari, cpc) [default: pc35hd]\n  -d, --drive <0-3>          Select physical drive unit (0..1 for PC, 0..3 for Shugart) [default: 0]\n  -b, --bus <pc|shugart>     Select floppy interface bus type (pc | shugart) [default: pc]\n  -s, --step <single|double> Select step mode (single 1:1 for 96/135 TPI | double 2:1 for 48 TPI) [default: single]\n      --double-step          Alias for --step double\n      --port <PORT>          Serial port connected to Greaseweazle\n  -h, --help                 Print help information\n  -v, -V, --version          Print version information\n"@
}

/// Builds the help and version banner of a release (see `banner_text`).
pub fn cli_banner(version: &str) -> (r: String)
    ensures
        r@ == banner_text(version@),
{
    let mut out = String::from_str("\u{1F4BE} AlignTesterDiag v");
    out.append(version);
    out.append("\nReal-time Floppy Drive Diagnostic & Alignment Tool for Greaseweazle\nCopyright (C) 2026 MonSieur JeAn-FReD (GPL-3.0)\n\nUsage: aligntester-diag [OPTIONS] [PORT]\n\nArguments:\n  [PORT]                  Serial port connected to Greaseweazle (e.g. COM3, /dev/ttyACM0)\n\nOptions:\n  -p, --preset <preset>      Select hardware & format preset (pc35hd, pc35dd, pc525hd, pc525ddonhd, pc525dd, amiga, atari, cpc) [default: pc35hd]\n  -d, --drive <0-3>          Select physical drive unit (0..1 for PC, 0..3 for Shugart) [default: 0]\n  -b, --bus <pc|shugart>     Select floppy interface bus type (pc | shugart) [default: pc]\n  -s, --step <single|double> Select step mode (single 1:1 for 96/135 TPI | double 2:1 for 48 TPI) [default: single]\n      --double-step          Alias for --step double\n      --port <PORT>          Serial port connected to Greaseweazle\n  -h, --help                 Print help information\n  -v, -V, --version          Print version information\n");
    out
}

/// The banner of this release.
pub fn build_cli_banner() -> (r: String)
    ensures
        r@ == banner_text(release_text()),
{
    cli_banner("0.1.0")
}

/// Whether an argument asks for help or the version.
pub open spec fn is_help_or_version_flag(a: Seq<char>) -> bool {
    a == "-h"@ || a == "--help"@ || a == "-v"@ || a == "-V"@ || a == "--version"@
}

/// Whether any argument after the program name asks for help or the
/// version.
pub fn wants_help_or_version(args: &[String]) -> (r: bool)
    ensures
        r == exists|i: int| 1 <= i < args@.len() && is_help_or_version_flag(#[trigger] args@[i]@),
{
    let mut i: usize = 1;
    while i < args.len()
        invariant
            1 <= i,
            i <= args@.len() || args@.len() == 0,
            forall|k: int| 1 <= k < i && k < args@.len() ==> !is_help_or_version_flag(#[trigger] args@[k]@),
        decreases args@.len() - i,
    {
        let a = args[i].as_str();
        if str_eq(a, "-h") || str_eq(a, "--help") || str_eq(a, "-v") || str_eq(a, "-V") || str_eq(
            a,
            "--version",
        ) {
            return true;
        }
        i = i + 1;
    }
    false
}

} // verus!
