//! What the command line decides before a command runs.

use vstd::prelude::*;
use vstd::string::*;

use crate::text::{
    chars_of, decimal, decimal_text, is_number, join3, lemma_digits_then, lemma_no_value, number_of,
    parse_unsigned, reads_as_number, string_of, unsigned_body, unsigned_value,
};

verus! {

/// The smallest draft block: the verifier's own token and one draft token.
pub const MIN_DRAFT_BLOCK_SIZE: usize = 2;

/// The largest draft block that one verify pass can score.
pub const MAX_BLOCK_SIZE: usize = 1024;

/// How draft tokens are made.
#[derive(Debug, Clone, Copy, PartialEq, Eq, Structural)]
pub enum DraftKind {
    Mtp,
    DFlash,
    DFlash2,
    Eagle3,
    TwoModel,
}

impl DraftKind {
    pub open spec fn text(self) -> Seq<char> {
        match self {
            DraftKind::Mtp => "mtp"@,
            DraftKind::DFlash => "dflash"@,
            DraftKind::DFlash2 => "dflash2"@,
            DraftKind::Eagle3 => "eagle3"@,
            DraftKind::TwoModel => "two_model"@,
        }
    }

    /// The kind as the flag, the logs and the metrics spell it.
    pub fn as_str(self) -> (r: &'static str)
        ensures
            r@ == self.text(),
    {
        match self {
            DraftKind::Mtp => "mtp",
            DraftKind::DFlash => "dflash",
            DraftKind::DFlash2 => "dflash2",
            DraftKind::Eagle3 => "eagle3",
            DraftKind::TwoModel => "two_model",
        }
    }
}

/// How the longest cached prefix of a prompt is found.
#[derive(Debug, Clone, Copy, PartialEq, Eq, Structural)]
pub enum PrefixIndexKind {
    Linear,
    Radix,
}

impl Default for PrefixIndexKind {
    fn default() -> (r: PrefixIndexKind)
        ensures
            r == PrefixIndexKind::Linear,
    {
        PrefixIndexKind::Linear
    }
}

/// What a `--draft-block-size` text stands for: a whole number of tokens within
/// the two bounds, or the message with which it is refused.
pub open spec fn draft_block_size(s: Seq<char>) -> Result<nat, Seq<char>> {
    match unsigned_value(s, usize::MAX as nat) {
        Err(e) => Err("not a whole number of tokens: "@ + e.text()),
        Ok(n) => if n < 2 {
            Err(
                "a block of "@ + decimal_text(n)
                    + " leaves no room for a draft token; it must be at least "@ + decimal_text(2),
            )
        } else if n > 1024 {
            Err(
                "a block of "@ + decimal_text(n)
                    + " is more positions than one verify forward can score; the round scores the whole block in a single un-chunked pass that materialises one full-vocabulary logit row per position, and above about a thousand of them that pass times the GPU out rather than running slowly (max "@
                    + decimal_text(1024) + ")"@,
            )
        } else {
            Ok(n)
        },
    }
}

/// Reads `--draft-block-size`. A block outside the bounds is refused, never
/// clamped: the operator would read the figures of a block they did not ask for.
pub fn parse_draft_block_size(s: &str) -> (r: Result<usize, String>)
    ensures
        match (r, draft_block_size(s@)) {
            (Ok(n), Ok(m)) => n == m,
            (Err(e), Err(f)) => e@ == f,
            _ => false,
        },
{
    match parse_unsigned(s, usize::MAX as u64) {
        Err(e) => {
            let mut m: String = "not a whole number of tokens: ".to_owned();
            m.append(e.message());
            Err(m)
        },
        Ok(n) => {
            if n < MIN_DRAFT_BLOCK_SIZE as u64 {
                let mut m: String = join3(
                    "a block of ",
                    decimal(n).as_str(),
                    " leaves no room for a draft token; it must be at least ",
                );
                m.append(decimal(MIN_DRAFT_BLOCK_SIZE as u64).as_str());
                return Err(m);
            }
            if n > MAX_BLOCK_SIZE as u64 {
                let mut m: String = join3(
                    "a block of ",
                    decimal(n).as_str(),
                    " is more positions than one verify forward can score; the round scores the whole block in a single un-chunked pass that materialises one full-vocabulary logit row per position, and above about a thousand of them that pass times the GPU out rather than running slowly (max ",
                );
                m.append(decimal(MAX_BLOCK_SIZE as u64).as_str());
                m.append(")");
                return Err(m);
            }
            Ok(n as usize)
        },
    }
}

/// A block within the bounds is read back from its decimal notation.
pub proof fn block_size_reads_back(n: nat)
    requires
        2 <= n <= 1024,
    ensures
        draft_block_size(decimal_text(n)) == Ok::<nat, Seq<char>>(n),
{
    crate::text::decimal_reads_back(n, usize::MAX as nat);
}

/// Whether the loaded device library is the validated one, whether a mismatch
/// binds, and what was found.
#[derive(Debug)]
pub struct PinCheck {
    pub matches: bool,
    pub binding: bool,
    pub detail: String,
}

/// Refuses to measure with a device library that is not the validated one, since
/// the figures could not be compared with any recorded one.
pub fn refuse_to_measure_off_the_pin(command: &str, check: &PinCheck) -> (r: Result<(), String>)
    ensures
        r is Ok <==> check.matches || !check.binding,
        r is Err ==> r->Err_0@ == command@ + " refuses to measure: "@ + check.detail@
            + ". Prefill and TTFT measured against an unvalidated MLX are not comparable to any recorded number. Restore the pair with `make mlx-restore-pin`, or see docs/FFI.md."@,
{
    if check.matches || !check.binding {
        return Ok(());
    }
    let mut m: String = join3(command, " refuses to measure: ", check.detail.as_str());
    m.append(
        ". Prefill and TTFT measured against an unvalidated MLX are not comparable to any recorded number. Restore the pair with `make mlx-restore-pin`, or see docs/FFI.md.",
    );
    Err(m)
}

/// The length of the first `n` characters of a path without the separators and the
/// `.` components at their end. A `.` that the path begins with stays.
pub open spec fn trimmed(path: Seq<char>, n: int) -> int
    decreases n,
{
    if 0 < n <= path.len() && path[n - 1] == '/' {
        trimmed(path, n - 1)
    } else if 1 < n <= path.len() && path[n - 1] == '.' && path[n - 2] == '/' {
        trimmed(path, n - 1)
    } else {
        n
    }
}

/// Where the component that ends behind the first `n` characters begins.
pub open spec fn component_start(path: Seq<char>, n: int) -> int
    decreases n,
{
    if 0 < n <= path.len() && path[n - 1] != '/' {
        component_start(path, n - 1)
    } else {
        n
    }
}

/// How many characters of a path name the directory above it. The root and the
/// empty path have none above them.
pub open spec fn parent_len(path: Seq<char>) -> Option<int> {
    let end = trimmed(path, path.len() as int);
    let start = component_start(path, end);
    if end == 0 {
        None
    } else if trimmed(path, start) == 0 && start > 0 {
        Some(1)
    } else {
        Some(trimmed(path, start))
    }
}

/// The path of the prompts in a directory.
pub open spec fn prompts_in(dir: Seq<char>) -> Seq<char> {
    if dir.len() == 0 || dir.last() == '/' {
        dir + "prompts"@
    } else {
        dir + "/prompts"@
    }
}

/// The directories in which prompts are looked for: `prompts` in the directory and
/// in every one above it, the nearest first.
pub open spec fn prompt_paths(dir: Seq<char>) -> Seq<Seq<char>>
    decreases dir.len(),
{
    match parent_len(dir) {
        Some(n) if 0 <= n < dir.len() => seq![prompts_in(dir)] + prompt_paths(dir.take(n)),
        _ => seq![prompts_in(dir)],
    }
}

proof fn lemma_path_cuts(path: Seq<char>, n: int)
    requires
        0 <= n <= path.len(),
    ensures
        0 <= trimmed(path, n) <= n,
        0 <= component_start(path, n) <= n,
        n > 0 && path[n - 1] != '/' ==> component_start(path, n) < n,
        trimmed(path, n) > 0 ==> path[trimmed(path, n) - 1] != '/',
    decreases n,
{
    if n > 0 {
        lemma_path_cuts(path, n - 1);
    }
}

fn trim_end(path: &Vec<char>, n: usize) -> (r: usize)
    requires
        n <= path.len(),
    ensures
        r == trimmed(path@, n as int),
        r <= n,
{
    let mut m: usize = n;
    while (m > 0 && path[m - 1] == '/') || (m > 1 && path[m - 1] == '.' && path[m - 2] == '/')
        invariant
            m <= n <= path.len(),
            trimmed(path@, m as int) == trimmed(path@, n as int),
        decreases m,
    {
        m -= 1;
    }
    m
}

/// The length of the path of the directory above one. See [`parent_len`].
fn parent(path: &Vec<char>) -> (r: Option<usize>)
    ensures
        match r {
            Some(n) => parent_len(path@) == Some(n as int) && n < path.len(),
            None => parent_len(path@) is None,
        },
{
    let end: usize = trim_end(path, path.len());
    proof {
        lemma_path_cuts(path@, path@.len() as int);
        lemma_path_cuts(path@, end as int);
    }
    if end == 0 {
        return None;
    }
    let mut start: usize = end;
    while start > 0 && path[start - 1] != '/'
        invariant
            start <= end <= path.len(),
            component_start(path@, start as int) == component_start(path@, end as int),
        decreases start,
    {
        start -= 1;
    }
    let above: usize = trim_end(path, start);
    if above == 0 && start > 0 {
        Some(1)
    } else {
        Some(above)
    }
}

/// The directories in which prompts are looked for: `prompts` under the given
/// directory and under every one above it, the nearest first.
pub fn prompt_dirs(cwd: &str) -> (r: Vec<String>)
    ensures
        r@.map_values(|s: String| s@) == prompt_paths(cwd@),
{
    let mut dir: Vec<char> = chars_of(cwd);
    let mut out: Vec<String> = Vec::new();
    proof {
        assert(out@.map_values(|s: String| s@) + prompt_paths(cwd@) =~= prompt_paths(cwd@));
    }
    loop
        invariant
            out@.map_values(|s: String| s@) + prompt_paths(dir@) == prompt_paths(cwd@),
        decreases dir.len(),
    {
        let mut path: String = string_of(&dir);
        if dir.len() == 0 || dir[dir.len() - 1] == '/' {
            path.append("prompts");
        } else {
            path.append("/prompts");
        }
        let ghost before = out@.map_values(|s: String| s@);
        let ghost here = dir@;
        out.push(path);
        assert(out@.map_values(|s: String| s@) =~= before.push(prompts_in(here)));
        match parent(&dir) {
            Some(n) => {
                dir.truncate(n);
                proof {
                    assert(dir@ =~= here.take(n as int));
                    assert(before.push(prompts_in(here)) + prompt_paths(dir@) =~= before + (seq![
                        prompts_in(here),
                    ] + prompt_paths(dir@)));
                }
            },
            None => {
                assert(before.push(prompts_in(here)) =~= before + seq![prompts_in(here)]);
                return out;
            },
        }
    }
}

/// Whether none of the first `n` candidates holds the prompts.
pub open spec fn none_holds<F>(candidates: Seq<String>, holds_prompts: F, n: int) -> bool where
    F: Fn(&String) -> bool,
 {
    forall|k: int| 0 <= k < n ==> call_ensures(holds_prompts, (&#[trigger] candidates[k],), false)
}

/// Finds the directory of the canonical prompts: the one that was named, else
/// the first candidate that `holds_prompts`, else `prompts`.
pub fn resolve_prompts_root<F>(
    prompts_dir: Option<String>,
    candidates: &Vec<String>,
    holds_prompts: F,
) -> (r: String) where F: Fn(&String) -> bool
    requires
        prompts_dir is None ==> forall|c: &String| #[trigger] call_requires(holds_prompts, (c,)),
    ensures
        prompts_dir is Some ==> r@ == prompts_dir->0@,
        prompts_dir is None ==> exists|n: int|
            0 <= n <= candidates@.len() && #[trigger] none_holds(candidates@, holds_prompts, n) && (
            if n < candidates@.len() {
                call_ensures(holds_prompts, (&candidates@[n],), true) && r@ == candidates@[n]@
            } else {
                r@ == "prompts"@
            }),
{
    if let Some(d) = prompts_dir {
        return d;
    }
    let mut i: usize = 0;
    while i < candidates.len()
        invariant
            prompts_dir is None,
            i <= candidates@.len(),
            forall|c: &String| #[trigger] call_requires(holds_prompts, (c,)),
            none_holds(candidates@, holds_prompts, i as int),
        decreases candidates.len() - i,
    {
        let found: bool = holds_prompts(&candidates[i]);
        if found {
            return candidates[i].clone();
        }
        i += 1;
    }
    "prompts".to_owned()
}

/// The label of a baseline run: the one that was given, else the name of the
/// canonical prompt, else the name of the prompt file, else `unknown`.
pub fn baseline_label(given: String, prompt_id: Option<String>, file_name: Option<String>) -> (r:
    String)
    ensures
        r@ == (if given@.len() > 0 {
            given@
        } else if prompt_id is Some {
            prompt_id->0@
        } else if file_name is Some {
            file_name->0@
        } else {
            "unknown"@
        }),
{
    if !given.as_str().is_empty() {
        return given;
    }
    match prompt_id {
        Some(id) => id,
        None => match file_name {
            Some(name) => name,
            None => "unknown".to_owned(),
        },
    }
}

/// The KV flags of a perplexity run, as far as they were given.
#[derive(Debug, Clone, Copy, PartialEq, Eq, Structural)]
pub struct PplKvFlags {
    pub kv_quant: bool,
    pub kv_preset: bool,
    pub kv_bits: bool,
    pub cache_type_k: bool,
    pub cache_type_v: bool,
    pub kv_boundary_layers: bool,
}

impl PplKvFlags {
    /// Whether a KV codec was asked for.
    pub open spec fn asks_for_codec(self) -> bool {
        self.kv_quant || self.kv_preset || self.kv_bits || self.cache_type_k || self.cache_type_v
    }
}

/// Whether a perplexity run goes through the KV cache. Boundary layers without
/// a codec are refused: they would change nothing.
pub fn ppl_uses_cache(flags: PplKvFlags) -> (r: Result<bool, &'static str>)
    ensures
        match r {
            Ok(uses) => uses == flags.asks_for_codec() && (flags.kv_boundary_layers
                ==> flags.asks_for_codec()),
            Err(m) => {
                &&& flags.kv_boundary_layers
                &&& !flags.asks_for_codec()
                &&& m@
                    == "--kv-boundary-layers needs a KV codec: the default scorer runs no per-layer cache, so the boundary counts would change nothing. Pass --kv-quant (or --kv-preset / --kv-bits) as well."@
            },
        },
{
    let requested: bool = flags.kv_quant || flags.kv_preset || flags.kv_bits || flags.cache_type_k
        || flags.cache_type_v;
    if flags.kv_boundary_layers && !requested {
        return Err(
            "--kv-boundary-layers needs a KV codec: the default scorer runs no per-layer cache, so the boundary counts would change nothing. Pass --kv-quant (or --kv-preset / --kv-bits) as well.",
        );
    }
    Ok(requested)
}

/// How much a process records of what it measures.
#[derive(Debug, Clone, Copy, PartialEq, Eq, Structural)]
pub enum MetricsMode {
    /// Nothing.
    Off,
    /// The events of the runtime, but no bench observations.
    Events,
    /// Everything.
    Full,
}

/// How much is recorded. A run whose kernels are captured records nothing, whatever
/// the flag says: its figures are those of the capture.
pub fn metrics_mode(capture_requested: bool, flag: MetricsMode) -> (r: MetricsMode)
    ensures
        r == (if capture_requested {
            MetricsMode::Off
        } else {
            flag
        }),
{
    if capture_requested {
        MetricsMode::Off
    } else {
        flag
    }
}

/// The metrics database that a health check looks at: the one that the flag names,
/// else the one that the shell names, else the default one.
pub fn metrics_db(flag: Option<String>, shell: Option<String>, default_path: String) -> (r: String)
    ensures
        r@ == (match (flag, shell) {
            (Some(p), _) => p@,
            (None, Some(p)) => p@,
            (None, None) => default_path@,
        }),
{
    match flag {
        Some(p) => p,
        None => match shell {
            Some(p) => p,
            None => default_path,
        },
    }
}

/// Whether `rmlx info` claims the device: only where a probe runs the model.
pub fn info_claims_device(probe_forward: bool, probe_smoke: bool) -> (r: bool)
    ensures
        r == (probe_forward || probe_smoke),
{
    probe_forward || probe_smoke
}

proof fn lemma_trimmed_prefix(a: Seq<char>, b: Seq<char>, n: int)
    requires
        0 <= n <= a.len(),
    ensures
        trimmed(a + b, n) == trimmed(a, n),
        component_start(a + b, n) == component_start(a, n),
    decreases n,
{
    if n > 0 {
        lemma_trimmed_prefix(a, b, n - 1);
        assert((a + b)[n - 1] == a[n - 1]);
        if n > 1 {
            assert((a + b)[n - 2] == a[n - 2]);
        }
    }
}

proof fn lemma_component(path: Seq<char>, from: int, n: int)
    requires
        0 <= from <= n <= path.len(),
        forall|i: int| from <= i < n ==> #[trigger] path[i] != '/',
        from == 0 || path[from - 1] == '/',
    ensures
        component_start(path, n) == from,
    decreases n,
{
    if from < n {
        assert(path[n - 1] != '/');
        lemma_component(path, from, n - 1);
    }
}

/// Whether a text is the name of a directory: not empty, without a separator, and not the
/// one that stands for the same place.
pub open spec fn is_dir_name(name: Seq<char>) -> bool {
    &&& name.len() > 0
    &&& name != seq!['.']
    &&& forall|i: int| 0 <= i < name.len() ==> #[trigger] name[i] != '/'
}

proof fn lemma_named_end(head: Seq<char>, name: Seq<char>)
    requires
        is_dir_name(name),
        head.len() == 0 || head.last() == '/',
    ensures
        trimmed(head + name, (head + name).len() as int) == (head + name).len(),
        component_start(head + name, (head + name).len() as int) == head.len(),
{
    let path = head + name;
    let n = path.len() as int;
    assert(path[n - 1] == name[name.len() - 1]);
    if name.len() > 1 {
        assert(path[n - 2] == name[name.len() - 2]);
    } else {
        assert(name =~= seq![name[0]]);
    }
    assert forall|i: int| head.len() <= i < n implies #[trigger] path[i] != '/' by {
        assert(path[i] == name[i - head.len()]);
    }
    lemma_component(path, head.len() as int, n);
}

proof fn lemma_trim_slashes(dir: Seq<char>, sep: Seq<char>, rest: Seq<char>, n: int)
    requires
        0 <= n <= sep.len(),
        forall|i: int| 0 <= i < sep.len() ==> #[trigger] sep[i] == '/',
        dir.len() > 0,
        dir.last() != '/',
        !(dir.len() > 1 && dir.last() == '.' && dir[dir.len() - 2] == '/'),
    ensures
        trimmed(dir + sep + rest, dir.len() + n) == dir.len(),
    decreases n,
{
    let path = dir + sep + rest;
    if n > 0 {
        assert(path[dir.len() + n - 1] == sep[n - 1]);
        lemma_trim_slashes(dir, sep, rest, n - 1);
    } else {
        assert(path[dir.len() - 1] == dir.last());
        if dir.len() > 1 {
            assert(path[dir.len() - 2] == dir[dir.len() - 2]);
        }
    }
}

/// The directories of one that lies in another are its own and then those of the other,
/// however many separators stand between them.
pub proof fn prompts_are_looked_for_upwards(
    path: &str,
    dir: &str,
    sep: Seq<char>,
    name: Seq<char>,
    r: Vec<String>,
    q: Vec<String>,
    i: int,
)
    requires
        is_dir_name(name),
        sep.len() > 0,
        forall|k: int| 0 <= k < sep.len() ==> #[trigger] sep[k] == '/',
        dir@.len() > 0,
        dir@.last() != '/',
        !(dir@.len() > 1 && dir@.last() == '.' && dir@[dir@.len() - 2] == '/'),
        path@ == dir@ + sep + name,
        call_ensures(prompt_dirs, (path,), r),
        call_ensures(prompt_dirs, (dir,), q),
    ensures
        r@.len() == q@.len() + 1,
        r@[0]@ == path@ + "/prompts"@,
        0 <= i < q@.len() ==> r@[i + 1]@ == q@[i]@,
{
    let head = dir@ + sep;
    assert(head.last() == sep[sep.len() - 1]);
    lemma_named_end(head, name);
    lemma_trim_slashes(dir@, sep, name, sep.len() as int);
    assert(path@.take(dir@.len() as int) =~= dir@);
    assert(path@.last() == name.last());
    let m = r@.map_values(|s: String| s@);
    let k = q@.map_values(|s: String| s@);
    assert(m.len() == r@.len() && k.len() == q@.len());
    assert(m[0] == r@[0]@);
    if 0 <= i < k.len() {
        assert(m[i + 1] == r@[i + 1]@);
        assert(k[i] == q@[i]@);
    }
}

/// A separator at the end of a path, or one and a dot, makes no difference to the
/// directories above it.
pub proof fn a_separator_at_the_end_makes_no_difference(
    path: &str,
    dir: &str,
    dotted: bool,
    r: Vec<String>,
    q: Vec<String>,
    i: int,
)
    requires
        dir@.len() > 0,
        dir@.last() != '/',
        !(dir@.len() > 1 && dir@.last() == '.' && dir@[dir@.len() - 2] == '/'),
        path@ == dir@ + (if dotted {
            seq!['/', '.']
        } else {
            seq!['/']
        }),
        call_ensures(prompt_dirs, (path,), r),
        call_ensures(prompt_dirs, (dir,), q),
    ensures
        r@.len() == q@.len(),
        !dotted ==> r@[0]@ == path@ + "prompts"@,
        dotted ==> r@[0]@ == path@ + "/prompts"@,
        0 < i < q@.len() ==> r@[i]@ == q@[i]@,
{
    let n = path@.len() as int;
    let d = dir@.len() as int;
    let end = if dotted {
        seq!['/', '.']
    } else {
        seq!['/']
    };
    lemma_trimmed_prefix(dir@, end, d);
    lemma_path_cuts(dir@, d);
    assert(path@[d] == '/');
    if dotted {
        assert(path@[d + 1] == '.');
    }
    reveal_with_fuel(trimmed, 3);
    assert(trimmed(dir@, d) == d);
    assert(trimmed(path@, n) == d);
    let start = component_start(dir@, d);
    lemma_trimmed_prefix(dir@, end, start);
    assert(parent_len(path@) == parent_len(dir@));
    lemma_path_cuts(dir@, start);
    let above = parent_len(dir@)->0;
    assert(path@.take(above) =~= dir@.take(above));
    let m = r@.map_values(|s: String| s@);
    let k = q@.map_values(|s: String| s@);
    assert(m.len() == r@.len() && k.len() == q@.len());
    assert(m =~= prompt_paths(path@) && k =~= prompt_paths(dir@));
    assert(prompt_paths(path@).skip(1) =~= prompt_paths(dir@).skip(1));
    assert(m[0] == r@[0]@);
    if 0 < i < k.len() {
        assert(m.skip(1)[i - 1] == k.skip(1)[i - 1]);
        assert(m[i] == r@[i]@);
        assert(k[i] == q@[i]@);
    }
}

/// A directory at the root is looked in before the root, and a relative one before the
/// current directory. The root and the empty path have nothing above them.
pub proof fn prompts_are_looked_for_up_to_the_top(
    path: &str,
    name: Seq<char>,
    r: Vec<String>,
)
    requires
        call_ensures(prompt_dirs, (path,), r),
    ensures
        path@.len() == 0 ==> r@.len() == 1 && r@[0]@ == "prompts"@,
        path@ == seq!['/'] ==> r@.len() == 1 && r@[0]@ == "/prompts"@,
        is_dir_name(name) && path@ == name ==> r@.len() == 2 && r@[0]@ == name + "/prompts"@
            && r@[1]@ == "prompts"@,
        is_dir_name(name) && path@ == seq!['/'] + name ==> r@.len() == 2 && r@[0]@ == seq!['/']
            + name + "/prompts"@ && r@[1]@ == "/prompts"@,
{
    reveal_strlit("prompts");
    reveal_strlit("/prompts");
    let none = Seq::<char>::empty();
    let m = r@.map_values(|s: String| s@);
    assert(m.len() == r@.len());
    if m.len() > 0 {
        assert(m[0] == r@[0]@);
    }
    if m.len() > 1 {
        assert(m[1] == r@[1]@);
    }
    assert(none + "prompts"@ =~= "prompts"@);
    assert(seq!['/'] + "prompts"@ =~= "/prompts"@);
    reveal_with_fuel(trimmed, 3);
    reveal_with_fuel(prompt_paths, 3);
    assert(m =~= prompt_paths(path@));
    assert(prompt_paths(none) =~= seq!["prompts"@]);
    assert(parent_len(seq!['/']) is None);
    assert(prompt_paths(seq!['/']) =~= seq!["/prompts"@]);
    if path@.len() == 0 {
        assert(path@ =~= none);
    }
    if is_dir_name(name) && path@ == name {
        assert(none + name =~= name);
        lemma_named_end(none, name);
        assert(path@.take(0) =~= none);
        assert(prompt_paths(path@) =~= seq![name + "/prompts"@, "prompts"@]);
    }
    if is_dir_name(name) && path@ == seq!['/'] + name {
        lemma_named_end(seq!['/'], name);
        lemma_trimmed_prefix(seq!['/'], name, 1);
        assert(path@.take(1) =~= seq!['/']);
        assert(path@.last() == name.last());
        assert(prompt_paths(path@) =~= seq![seq!['/'] + name + "/prompts"@, "/prompts"@]);
    }
}

/// The prompts are in the directory that was named. Where none was, they are in the first
/// candidate that holds them, or in `prompts` where none does.
pub proof fn the_first_directory_with_prompts_is_taken<F>(
    named: Option<String>,
    candidates: &Vec<String>,
    holds: F,
    r: String,
    k: int,
) where F: Fn(&String) -> bool
    requires
        call_ensures(resolve_prompts_root::<F>, (named, candidates, holds), r),
        forall|c: &String, a: bool, b: bool| #[trigger]
            call_ensures(holds, (c,), a) && #[trigger] call_ensures(holds, (c,), b) ==> a == b,
    ensures
        named is Some ==> r@ == named->0@,
        named is None && 0 <= k < candidates@.len() && call_ensures(
            holds,
            (&candidates@[k],),
            true,
        ) && (forall|j: int|
            0 <= j < k ==> call_ensures(holds, (&#[trigger] candidates@[j],), false)) ==> r@
            == candidates@[k]@,
        named is None && (forall|j: int|
            0 <= j < candidates@.len() ==> call_ensures(
                holds,
                (&#[trigger] candidates@[j],),
                false,
            )) ==> r@ == "prompts"@,
{
    if named is None {
        let n = choose|n: int|
            0 <= n <= candidates@.len() && #[trigger] none_holds(candidates@, holds, n) && (if n
                < candidates@.len() {
                call_ensures(holds, (&candidates@[n],), true) && r@ == candidates@[n]@
            } else {
                r@ == "prompts"@
            });
        if 0 <= k < candidates@.len() && call_ensures(holds, (&candidates@[k],), true) && (forall|
            j: int,
        |
            0 <= j < k ==> call_ensures(holds, (&#[trigger] candidates@[j],), false)) {
            if n < k {
                assert(call_ensures(holds, (&candidates@[n],), false));
            } else if k < n {
                assert(call_ensures(holds, (&candidates@[k],), false));
            }
        }
        if n < candidates@.len() && (forall|j: int|
            0 <= j < candidates@.len() ==> call_ensures(
                holds,
                (&#[trigger] candidates@[j],),
                false,
            )) {
            assert(call_ensures(holds, (&candidates@[n],), false));
        }
    }
}

/// A draft block is as large as it is written, between 2 and 1024 tokens; any other text is
/// refused, and a number is never changed into another.
pub proof fn a_draft_block_is_taken_or_refused(s: &str, r: Result<usize, String>)
    requires
        call_ensures(parse_draft_block_size, (s,), r),
    ensures
        is_number(s@) && 2 <= number_of(s@) <= 1024 ==> r is Ok && r->Ok_0 == number_of(s@),
        is_number(s@) && !(2 <= number_of(s@) <= 1024) ==> r is Err,
        r is Ok ==> 2 <= r->Ok_0 <= 1024,
        !reads_as_number(s@) ==> r is Err,
{
    if !reads_as_number(s@) {
        lemma_no_value(s@, usize::MAX as nat);
    }
    if is_number(s@) {
        assert('0' <= s@[0] <= '9');
        assert(unsigned_body(s@) == s@);
        assert(s@ + Seq::<char>::empty() =~= s@);
        lemma_digits_then(s@, Seq::empty(), 0);
    }
}

/// A measurement is refused only where the library is not the validated one and this binds,
/// and the refusal names the command and what was found.
pub proof fn only_a_binding_mismatch_is_refused(
    command: &str,
    check: &PinCheck,
    r: Result<(), String>,
)
    requires
        call_ensures(refuse_to_measure_off_the_pin, (command, check), r),
    ensures
        check.matches ==> r is Ok,
        !check.binding ==> r is Ok,
        !check.matches && check.binding ==> r is Err,
        r is Err ==> exists|tail: Seq<char>|
            r->Err_0@ == #[trigger] (command@ + " refuses to measure: "@ + check.detail@ + tail),
{
    if r is Err {
        let tail =
            ". Prefill and TTFT measured against an unvalidated MLX are not comparable to any recorded number. Restore the pair with `make mlx-restore-pin`, or see docs/FFI.md."@;
        assert(r->Err_0@ == command@ + " refuses to measure: "@ + check.detail@ + tail);
    }
}

/// The label that was given is used; without one the prompt's, then the file's.
pub proof fn the_nearest_label_is_used(
    given: String,
    prompt_id: Option<String>,
    file_name: Option<String>,
    r: String,
)
    requires
        call_ensures(baseline_label, (given, prompt_id, file_name), r),
    ensures
        given@.len() > 0 ==> r@ == given@,
        given@.len() == 0 && prompt_id is Some ==> r@ == prompt_id->0@,
        given@.len() == 0 && prompt_id is None && file_name is Some ==> r@ == file_name->0@,
        given@.len() == 0 && prompt_id is None && file_name is None ==> r@ == "unknown"@,
{
}

/// A perplexity run goes through the cache exactly where a flag asks for a codec. Boundary
/// layers are refused without one, and nothing else is.
pub proof fn a_codec_needs_the_cache(flags: PplKvFlags, r: Result<bool, &'static str>)
    requires
        call_ensures(ppl_uses_cache, (flags,), r),
    ensures
        flags.kv_quant || flags.kv_preset || flags.kv_bits || flags.cache_type_k
            || flags.cache_type_v ==> r == Ok::<bool, &'static str>(true),
        !flags.kv_quant && !flags.kv_preset && !flags.kv_bits && !flags.cache_type_k
            && !flags.cache_type_v ==> if flags.kv_boundary_layers {
            r is Err
        } else {
            r == Ok::<bool, &'static str>(false)
        },
{
}

/// A captured run records nothing, and any other what its flag says.
pub proof fn a_capture_is_not_recorded(capture: bool, flag: MetricsMode, r: MetricsMode)
    requires
        call_ensures(metrics_mode, (capture, flag), r),
    ensures
        capture ==> r is Off,
        !capture ==> r == flag,
{
}

/// The flag's database wins over the shell's, and the shell's over the default.
pub proof fn the_nearest_database_is_used(
    flag: Option<String>,
    shell: Option<String>,
    default_path: String,
    r: String,
)
    requires
        call_ensures(metrics_db, (flag, shell, default_path), r),
    ensures
        flag is Some ==> r@ == flag->0@,
        flag is None && shell is Some ==> r@ == shell->0@,
        flag is None && shell is None ==> r@ == default_path@,
{
}

/// The device is claimed where a probe runs the model, and only there.
pub proof fn a_probe_claims_the_device(forward: bool, smoke: bool, r: bool)
    requires
        call_ensures(info_claims_device, (forward, smoke), r),
    ensures
        forward ==> r,
        smoke ==> r,
        !forward && !smoke ==> !r,
{
}

/// A kind of draft is spelled by its own name.
pub proof fn a_draft_kind_has_its_name(k: DraftKind, r: &'static str)
    requires
        call_ensures(DraftKind::as_str, (k,), r),
    ensures
        k is Mtp ==> r@ == "mtp"@,
        k is DFlash ==> r@ == "dflash"@,
        k is DFlash2 ==> r@ == "dflash2"@,
        k is Eagle3 ==> r@ == "eagle3"@,
        k is TwoModel ==> r@ == "two_model"@,
{
}

} // verus!
