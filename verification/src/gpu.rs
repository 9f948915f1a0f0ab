//! GPU devices as the launcher lists them, and the command-line flags that
//! select one for ComfyUI.
//!
//! Running the platform tools (`nvidia-smi`, `lspci`, ...) belongs to the
//! application shell; this module interprets what they print.

use crate::strs::{
    append_chars, chars_eq, chars_of, contains_chars, dec, dec_chars, dec_i32_chars, dec_signed,
    find_first, find_last, first_occ, has_sub, last_occ, lines_of, lower_chars, lowercase_of,
    parse_i32, parse_i32_chars, slice_chars, split3, split3_chars, starts, string_of,
    strip_prefix_chars, text_lines, trim, trim_chars, upper_chars, uppercase_of, lemma_lines_count,
    parse_u64, parse_u64_chars, split_words, words, lemma_parse_dec_i32,
};
use vstd::prelude::*;

verus! {

/// One detected GPU device.
#[derive(Debug, Clone)]
pub struct GpuInfo {
    /// Backend identifier: `"cuda"`, `"rocm"`, `"dml"`, `"mps"`, `"other"`
    /// or `"cpu"`.
    pub backend: String,
    /// Device index within the backend (0-based).
    pub id: i32,
    /// Human-readable device name.
    pub name: String,
    /// Total VRAM in GiB (0 when unavailable).
    pub vram_gb: u64,
}

/// The config value stored for a device: `cpu`, or `<backend>:<id>`.
pub open spec fn gpu_value(g: GpuInfo) -> Seq<char> {
    if g.backend@ == "cpu"@ {
        "cpu"@
    } else {
        g.backend@ + ":"@ + dec_signed(g.id as int)
    }
}

/// The label shown for a device: `CPU`, or the upper-cased backend, the
/// index, the name and (when known) the VRAM, as in
/// `CUDA GPU 0: NVIDIA GeForce RTX 4090 (24 GB)`.
pub open spec fn gpu_label(g: GpuInfo) -> Seq<char> {
    if g.backend@ == "cpu"@ {
        "CPU"@
    } else {
        let head = uppercase_of(g.backend@) + " GPU "@ + dec_signed(g.id as int) + ": "@ + g.name@;
        if g.vram_gb > 0 {
            head + " ("@ + dec(g.vram_gb as nat) + " GB)"@
        } else {
            head
        }
    }
}

fn is_cpu(backend: &String) -> (b: bool)
    ensures
        b == (backend@ == "cpu"@),
{
    chars_eq(&chars_of(backend.as_str()), &chars_of("cpu"))
}

fn push_str(v: &mut Vec<char>, s: &str)
    ensures
        final(v)@ == old(v)@ + s@,
{
    append_chars(v, &chars_of(s));
}

impl GpuInfo {
    /// Returns the config value stored for this device.
    pub fn config_value(&self) -> (r: String)
        ensures
            r@ == gpu_value(*self),
    {
        if is_cpu(&self.backend) {
            return "cpu".to_string();
        }
        let mut v = chars_of(self.backend.as_str());
        push_str(&mut v, ":");
        append_chars(&mut v, &dec_i32_chars(self.id));
        string_of(&v)
    }

    /// Returns a display label including backend, name, and VRAM.
    pub fn display_label(&self) -> (r: String)
        ensures
            r@ == gpu_label(*self),
    {
        if is_cpu(&self.backend) {
            return "CPU".to_string();
        }
        let mut v = upper_chars(&chars_of(self.backend.as_str()));
        push_str(&mut v, " GPU ");
        append_chars(&mut v, &dec_i32_chars(self.id));
        push_str(&mut v, ": ");
        push_str(&mut v, self.name.as_str());
        if self.vram_gb > 0 {
            push_str(&mut v, " (");
            append_chars(&mut v, &dec_chars(self.vram_gb));
            push_str(&mut v, " GB)");
        }
        string_of(&v)
    }
}

/// The entry for running on the CPU, always listed last.
pub fn cpu_entry() -> (g: GpuInfo)
    ensures
        g.backend@ == "cpu"@,
        g.id == 0,
        g.name@ == "CPU"@,
        g.vram_gb == 0,
{
    GpuInfo { backend: "cpu".to_string(), id: 0, name: "CPU".to_string(), vram_gb: 0 }
}

/// Index of the first device that is not the CPU entry.
pub open spec fn first_gpu(gs: Seq<GpuInfo>) -> Option<int>
    decreases gs.len(),
{
    if gs.len() == 0 {
        None
    } else {
        match first_gpu(gs.drop_last()) {
            Some(i) => Some(i),
            None => if gs.last().backend@ != "cpu"@ {
                Some(gs.len() - 1)
            } else {
                None
            },
        }
    }
}

/// Label of the "Default" GPU option: the default text, followed by the
/// label of the device ComfyUI picks by default (the first one that is not
/// the CPU) when there is one.
pub fn default_label(gpus: &Vec<GpuInfo>, default_text: &str) -> (r: String)
    ensures
        r@ == match first_gpu(gpus@) {
            Some(i) => default_text@ + " - "@ + gpu_label(gpus@[i]),
            None => default_text@,
        },
{
    let mut i: usize = 0;
    assert(gpus@.take(0) =~= Seq::<GpuInfo>::empty());
    while i < gpus.len()
        invariant
            i <= gpus.len(),
            first_gpu(gpus@.take(i as int)) is None,
        decreases gpus.len() - i,
    {
        assert(gpus@.take(i + 1).drop_last() =~= gpus@.take(i as int));
        if !is_cpu(&gpus[i].backend) {
            proof {
                lemma_first_gpu_prefix(gpus@, i + 1);
            }
            let mut v = chars_of(default_text);
            push_str(&mut v, " - ");
            let l = gpus[i].display_label();
            push_str(&mut v, l.as_str());
            return string_of(&v);
        }
        i = i + 1;
    }
    assert(gpus@.take(gpus.len() as int) =~= gpus@);
    default_text.to_string()
}

proof fn lemma_first_gpu_prefix(gs: Seq<GpuInfo>, j: int)
    requires
        0 <= j <= gs.len(),
        first_gpu(gs.take(j)) is Some,
    ensures
        first_gpu(gs) == first_gpu(gs.take(j)),
    decreases gs.len() - j,
{
    if j < gs.len() {
        assert(gs.take(j + 1).drop_last() =~= gs.take(j));
        lemma_first_gpu_prefix(gs, j + 1);
    } else {
        assert(gs.take(j) =~= gs);
    }
}

/// ComfyUI flags for a stored GPU value: `cuda:N` and `rocm:N` select
/// `--cuda-device N`, `dml:N` selects `--directml N` (just `--directml`
/// when N is negative or not a number), `cpu` gives `--cpu`, and an empty
/// value, `mps:N` or anything else gives nothing.
pub open spec fn gpu_cli_args(v: Seq<char>) -> Seq<Seq<char>> {
    if v.len() == 0 {
        Seq::empty()
    } else if v == "cpu"@ {
        seq!["--cpu"@]
    } else if starts(v, "cuda:"@) {
        seq!["--cuda-device"@, v.skip("cuda:"@.len() as int)]
    } else if starts(v, "rocm:"@) {
        seq!["--cuda-device"@, v.skip("rocm:"@.len() as int)]
    } else if starts(v, "mps:"@) {
        Seq::empty()
    } else if starts(v, "dml:"@) {
        match parse_i32(v.skip("dml:"@.len() as int)) {
            Some(id) => if id < 0 {
                seq!["--directml"@]
            } else {
                seq!["--directml"@, dec_signed(id as int)]
            },
            None => seq!["--directml"@],
        }
    } else {
        Seq::empty()
    }
}

/// The flags of a stored GPU text `<backend>:<n>`: `--cuda-device n` for
/// CUDA and ROCm, `--directml n` for DirectML; `cpu` gives `--cpu`.
pub proof fn lemma_gpu_args_of_text(b: Seq<char>, n: nat)
    requires
        b == "cuda"@ || b == "rocm"@ || b == "dml"@,
        n <= i32::MAX,
    ensures
        gpu_cli_args(b + ":"@ + dec(n)) == (if b == "dml"@ {
            seq!["--directml"@, dec(n)]
        } else {
            seq!["--cuda-device"@, dec(n)]
        }),
        gpu_cli_args("cpu"@) == seq!["--cpu"@],
{
    reveal_strlit("cuda");
    reveal_strlit("rocm");
    reveal_strlit("dml");
    reveal_strlit("cpu");
    reveal_strlit("mps:");
    reveal_strlit(":");
    reveal_strlit("cuda:");
    reveal_strlit("rocm:");
    reveal_strlit("dml:");
    let v = b + ":"@ + dec(n);
    let d = dec(n);
    assert(v.len() > 0);
    assert(v[0] == b[0]);
    assert(v != "cpu"@) by {
        if v == "cpu"@ {
            assert(b[0] == 'c');
            assert(b == "cuda"@);
            assert(v[4] == ':');
        }
    }
    if b == "cuda"@ {
        assert(v.take(5) =~= "cuda:"@);
        assert(v.skip(5) =~= d);
    } else if b == "rocm"@ {
        assert(v.take(5) != "cuda:"@) by {
            assert(v.take(5)[0] == 'r');
        }
        assert(v.take(5) =~= "rocm:"@);
        assert(v.skip(5) =~= d);
    } else {
        assert(v.take(5) != "cuda:"@) by {
            assert(v.take(5)[0] == 'd');
        }
        assert(v.take(5) != "rocm:"@) by {
            assert(v.take(5)[0] == 'd');
        }
        assert(v.take(4) != "mps:"@) by {
            assert(v.take(4)[0] == 'd');
        }
        assert(v.take(4) =~= "dml:"@);
        assert(v.skip(4) =~= d);
        lemma_parse_dec_i32(n);
    }
}

/// A device's stored value selects that device again: for a CUDA or ROCm
/// device `--cuda-device` with its index, for a DirectML device
/// `--directml` with its index, and `--cpu` for the CPU.
pub proof fn law_gpu_value_flags(g: GpuInfo)
    requires
        g.backend@ == "cuda"@ || g.backend@ == "rocm"@ || g.backend@ == "dml"@ || g.backend@
            == "cpu"@,
        g.id >= 0,
    ensures
        gpu_cli_args(gpu_value(g)) == (if g.backend@ == "cpu"@ {
            seq!["--cpu"@]
        } else if g.backend@ == "dml"@ {
            seq!["--directml"@, dec(g.id as nat)]
        } else {
            seq!["--cuda-device"@, dec(g.id as nat)]
        }),
{
    reveal_strlit("cuda");
    reveal_strlit("rocm");
    reveal_strlit("dml");
    reveal_strlit("cpu");
    reveal_strlit("mps:");
    reveal_strlit(":");
    reveal_strlit("cuda:");
    reveal_strlit("rocm:");
    reveal_strlit("dml:");
    let v = gpu_value(g);
    if g.backend@ != "cpu"@ {
        let d = dec_signed(g.id as int);
        assert(d == dec(g.id as nat));
        let b = g.backend@;
        assert(v == b + ":"@ + d);
        assert(v.len() > 0);
        assert(v[0] == b[0]);
        assert(v != "cpu"@) by {
            if v == "cpu"@ {
                assert(v[0] == 'c');
                assert(b[0] == 'c');
                assert(b == "cuda"@);
                assert(v[4] == ':');
            }
        }
        if b == "cuda"@ {
            assert(v.take(5) =~= "cuda:"@);
            assert(v.skip(5) =~= d);
        } else if b == "rocm"@ {
            assert(v.take(5) != "cuda:"@) by {
                assert(v.take(5)[0] == 'r');
            }
            assert(v.take(5) =~= "rocm:"@);
            assert(v.skip(5) =~= d);
        } else {
            assert(v.take(5) != "cuda:"@) by {
                assert(v.take(5)[0] == 'd');
            }
            assert(v.take(5) != "rocm:"@) by {
                assert(v.take(5)[0] == 'd');
            }
            assert(v.take(4) != "mps:"@) by {
                assert(v.take(4)[0] == 'd');
            }
            assert(v.take(4) =~= "dml:"@);
            assert(v.skip(4) =~= d);
            lemma_parse_dec_i32(g.id as nat);
        }
    }
}

/// Converts a stored GPU value into ComfyUI command-line arguments.
pub fn config_value_to_cli_args(value: &str) -> (r: Vec<String>)
    ensures
        r@.map_values(|s: String| s@) == gpu_cli_args(value@),
{
    let v = chars_of(value);
    let mut out: Vec<String> = Vec::new();
    if v.len() == 0 {
        assert(out@.map_values(|s: String| s@) =~= gpu_cli_args(value@));
        return out;
    }
    if chars_eq(&v, &chars_of("cpu")) {
        out.push("--cpu".to_string());
        assert(out@.map_values(|s: String| s@) =~= gpu_cli_args(value@));
        return out;
    }
    match strip_prefix_chars(&v, &chars_of("cuda:")) {
        Some(rest) => {
            out.push("--cuda-device".to_string());
            out.push(string_of(&rest));
            assert(out@.map_values(|s: String| s@) =~= gpu_cli_args(value@));
            return out;
        },
        None => {},
    }
    match strip_prefix_chars(&v, &chars_of("rocm:")) {
        Some(rest) => {
            out.push("--cuda-device".to_string());
            out.push(string_of(&rest));
            assert(out@.map_values(|s: String| s@) =~= gpu_cli_args(value@));
            return out;
        },
        None => {},
    }
    match strip_prefix_chars(&v, &chars_of("mps:")) {
        Some(_) => {
            assert(out@.map_values(|s: String| s@) =~= gpu_cli_args(value@));
            return out;
        },
        None => {},
    }
    match strip_prefix_chars(&v, &chars_of("dml:")) {
        Some(rest) => {
            out.push("--directml".to_string());
            match parse_i32_chars(&rest) {
                Some(id) => {
                    if id >= 0 {
                        out.push(string_of(&dec_i32_chars(id)));
                    }
                },
                None => {},
            }
            assert(out@.map_values(|s: String| s@) =~= gpu_cli_args(value@));
            return out;
        },
        None => {},
    }
    assert(out@.map_values(|s: String| s@) =~= gpu_cli_args(value@));
    out
}

/// A device as plain values: backend, index, name, VRAM.
pub type GpuView = (Seq<char>, i32, Seq<char>, u64);

/// The fields of `g`.
pub open spec fn gpu_view(g: GpuInfo) -> GpuView {
    (g.backend@, g.id, g.name@, g.vram_gb)
}

/// Index, name and the VRAM text (MiB, left for the caller to read as a
/// number) of an `nvidia-smi --query-gpu=index,name,memory.total
/// --format=csv,noheader,nounits` line: the first two commas split it, each
/// field trimmed; an index that does not parse reads as 0.
pub open spec fn nvidia_fields(l: Seq<char>) -> Option<(i32, Seq<char>, Seq<char>)> {
    let p = split3(l, ',');
    if p.len() < 3 {
        None
    } else {
        let id = match parse_i32(trim(p[0])) {
            Some(n) => n,
            None => 0,
        };
        Some((id, trim(p[1]), trim(p[2])))
    }
}

/// Reads one `nvidia-smi` line (see [`nvidia_fields`]).
pub fn parse_nvidia_line(line: &str) -> (r: Option<(i32, String, String)>)
    ensures
        match r {
            Some(t) => nvidia_fields(line@) == Some((t.0, t.1@, t.2@)),
            None => nvidia_fields(line@) is None,
        },
{
    let v = chars_of(line);
    let p = split3_chars(&v, ',');
    if p.len() < 3 {
        return None;
    }
    let id = match parse_i32_chars(&trim_chars(&p[0])) {
        Some(n) => n,
        None => 0,
    };
    Some((id, string_of(&trim_chars(&p[1])), string_of(&trim_chars(&p[2]))))
}

/// Whether `key` is one of `seen`.
fn seen_contains(seen: &Vec<Vec<char>>, key: &Vec<char>) -> (r: bool)
    ensures
        r == seen@.map_values(|x: Vec<char>| x@).contains(key@),
{
    let ghost sv = seen@.map_values(|x: Vec<char>| x@);
    let mut i: usize = 0;
    while i < seen.len()
        invariant
            i <= seen.len(),
            sv == seen@.map_values(|x: Vec<char>| x@),
            forall|j: int| 0 <= j < i ==> sv[j] != key@,
        decreases seen.len() - i,
    {
        if chars_eq(&seen[i], key) {
            assert(sv[i as int] == key@);
            return true;
        }
        i = i + 1;
    }
    false
}

/// Records the lower-cased `name` in `seen`; returns whether it was new.
/// Devices are listed once per name, whatever tool reported them.
pub fn note_name(seen: &mut Vec<Vec<char>>, name: &str) -> (fresh: bool)
    ensures
        fresh == !old(seen)@.map_values(|x: Vec<char>| x@).contains(lowercase_of(name@)),
        final(seen)@.map_values(|x: Vec<char>| x@) == (if fresh {
            old(seen)@.map_values(|x: Vec<char>| x@).push(lowercase_of(name@))
        } else {
            old(seen)@.map_values(|x: Vec<char>| x@)
        }),
{
    let key = lower_chars(&chars_of(name));
    if seen_contains(seen, &key) {
        return false;
    }
    let ghost before = seen@.map_values(|x: Vec<char>| x@);
    let ghost kv = key@;
    seen.push(key);
    assert(seen@.map_values(|x: Vec<char>| x@) =~= before.push(kv));
    true
}

/// The device name in an `lspci` line: the text after the first `": "`,
/// cut at the last `"(rev "` and trimmed, then the part after the first
/// `"] "` (trimmed) when that part is not empty.
pub open spec fn lspci_name(l: Seq<char>) -> Seq<char> {
    match first_occ(l, ": "@) {
        None => Seq::empty(),
        Some(i) => {
            let after = l.skip(i + 2);
            let t = match last_occ(after, "(rev "@) {
                Some(j) => trim(after.take(j)),
                None => trim(after),
            };
            match first_occ(t, "] "@) {
                Some(k) => {
                    let b = trim(t.skip(k + 2));
                    if b.len() > 0 {
                        b
                    } else {
                        t
                    }
                },
                None => t,
            }
        },
    }
}

/// Extracts a readable device name from an `lspci` line.
pub fn extract_lspci_name(line: &Vec<char>) -> (r: Vec<char>)
    ensures
        r@ == lspci_name(line@),
{
    let sep = chars_of(": ");
    assert(sep@.len() == 2) by {
        reveal_strlit(": ");
    }
    let found = find_first(line, &sep);
    let i = match found {
        Some(i) => i,
        None => return Vec::new(),
    };
    assert(i + 2 <= line@.len());
    let n = line.len();
    let after = slice_chars(line, i + 2, n);
    assert(after@ =~= line@.skip(i + 2));
    let t = match find_last(&after, &chars_of("(rev ")) {
        Some(j) => trim_chars(&slice_chars(&after, 0, j)),
        None => trim_chars(&after),
    };
    proof {
        if last_occ(after@, "(rev "@) is Some {
            assert(after@.subrange(0, last_occ(after@, "(rev "@).unwrap()) =~= after@.take(
                last_occ(after@, "(rev "@).unwrap(),
            ));
        }
    }
    let close = chars_of("] ");
    assert(close@.len() == 2) by {
        reveal_strlit("] ");
    }
    let found2 = find_first(&t, &close);
    match found2 {
        Some(k) => {
            assert(k + 2 <= t@.len());
            let tn = t.len();
            let b = trim_chars(&slice_chars(&t, k + 2, tn));
            assert(t@.subrange(k + 2, t@.len() as int) =~= t@.skip(k + 2));
            if b.len() > 0 {
                b
            } else {
                t
            }
        },
        None => t,
    }
}

/// What a scan of `lspci` output has found so far: devices, the
/// lower-cased names already listed, and the next ROCm and other indices.
pub type LspciScan = (Seq<GpuView>, Seq<Seq<char>>, int, int);

/// One `lspci` line: display controllers (VGA, 3D or DISPLAY in the
/// upper-cased line) other than NVIDIA ones (left to `nvidia-smi`) with a
/// non-empty, not yet listed name become a device: ROCm when the line
/// mentions AMD or ATI, `other` otherwise, each numbered in its own
/// sequence, VRAM unknown.
pub open spec fn lspci_step(st: LspciScan, l: Seq<char>) -> LspciScan {
    let up = uppercase_of(l);
    let display = has_sub(up, "VGA"@) || has_sub(up, "3D"@) || has_sub(up, "DISPLAY"@);
    let name = lspci_name(l);
    let key = lowercase_of(name);
    if !display || has_sub(up, "NVIDIA"@) || name.len() == 0 || st.1.contains(key) {
        st
    } else if has_sub(up, "AMD"@) || has_sub(up, "ATI"@) {
        (st.0.push(("rocm"@, st.2 as i32, name, 0u64)), st.1.push(key), st.2 + 1, st.3)
    } else {
        (st.0.push(("other"@, st.3 as i32, name, 0u64)), st.1.push(key), st.2, st.3 + 1)
    }
}

/// The scan after all of `ls`.
pub open spec fn lspci_run(st: LspciScan, ls: Seq<Seq<char>>) -> LspciScan
    decreases ls.len(),
{
    if ls.len() == 0 {
        st
    } else {
        lspci_step(lspci_run(st, ls.drop_last()), ls.last())
    }
}

/// Adds the devices listed in `lspci` output to `gpus`, skipping names
/// already in `seen` (and recording the new ones there).
pub fn scan_lspci(text: &str, gpus: &mut Vec<GpuInfo>, seen: &mut Vec<Vec<char>>)
    requires
        text@.len() < i32::MAX,
    ensures
        ({
            let st = lspci_run(
                (Seq::empty(), old(seen)@.map_values(|x: Vec<char>| x@), 0, 0),
                lines_of(text@),
            );
            &&& final(gpus)@.map_values(|g: GpuInfo| gpu_view(g)) == old(gpus)@.map_values(
                |g: GpuInfo| gpu_view(g),
            ) + st.0
            &&& final(seen)@.map_values(|x: Vec<char>| x@) == st.1
        }),
{
    let ls = text_lines(text);
    let ghost lv = ls@.map_values(|x: Vec<char>| x@);
    let ghost g0 = gpus@.map_values(|g: GpuInfo| gpu_view(g));
    let ghost s0 = seen@.map_values(|x: Vec<char>| x@);
    proof {
        lemma_lines_count(text@);
    }
    let mut rocm: i32 = 0;
    let mut other: i32 = 0;
    let mut i: usize = 0;
    assert(lv.take(0) =~= Seq::<Seq<char>>::empty());
    assert(g0 + Seq::<GpuView>::empty() =~= g0);
    while i < ls.len()
        invariant
            i <= ls.len() <= text@.len() + 1,
            text@.len() < i32::MAX,
            lv == ls@.map_values(|x: Vec<char>| x@),
            0 <= rocm <= i,
            0 <= other <= i,
            ({
                let st = lspci_run((Seq::empty(), s0, 0, 0), lv.take(i as int));
                &&& gpus@.map_values(|g: GpuInfo| gpu_view(g)) == g0 + st.0
                &&& seen@.map_values(|x: Vec<char>| x@) == st.1
                &&& st.2 == rocm as int
                &&& st.3 == other as int
            }),
        decreases ls.len() - i,
    {
        assert(lv.take(i + 1).drop_last() =~= lv.take(i as int));
        assert(lv.take(i + 1).last() == ls[i as int]@);
        let line = &ls[i];
        let up = upper_chars(line);
        let display = contains_chars(&up, &chars_of("VGA")) || contains_chars(&up, &chars_of("3D"))
            || contains_chars(&up, &chars_of("DISPLAY"));
        let nvidia = contains_chars(&up, &chars_of("NVIDIA"));
        if display && !nvidia {
            let name = extract_lspci_name(line);
            if name.len() > 0 {
                let name_s = string_of(&name);
                if note_name(seen, name_s.as_str()) {
                    let amd = contains_chars(&up, &chars_of("AMD")) || contains_chars(
                        &up,
                        &chars_of("ATI"),
                    );
                    let ghost before = gpus@.map_values(|g: GpuInfo| gpu_view(g));
                    if amd {
                        let g = GpuInfo {
                            backend: "rocm".to_string(),
                            id: rocm,
                            name: name_s,
                            vram_gb: 0,
                        };
                        let ghost gv = gpu_view(g);
                        gpus.push(g);
                        assert(gpus@.map_values(|g: GpuInfo| gpu_view(g)) =~= before.push(gv));
                        rocm = rocm + 1;
                    } else {
                        let g = GpuInfo {
                            backend: "other".to_string(),
                            id: other,
                            name: name_s,
                            vram_gb: 0,
                        };
                        let ghost gv = gpu_view(g);
                        gpus.push(g);
                        assert(gpus@.map_values(|g: GpuInfo| gpu_view(g)) =~= before.push(gv));
                        other = other + 1;
                    }
                }
            }
        }
        i = i + 1;
    }
    assert(lv.take(ls.len() as int) =~= lv);
}

/// Whole GiB in a byte count, rounded down.
pub open spec fn gib_of(bytes: u64) -> u64 {
    (bytes / 1073741824) as u64
}

/// What a scan of Windows display adapters has found so far: devices, the
/// lower-cased names already listed, and the next CUDA and DirectML indices.
pub type WinScan = (Seq<GpuView>, Seq<Seq<char>>, int, int);

/// One Windows display adapter, given by its reported name and adapter RAM
/// in bytes. The trimmed name identifies it; an empty or already listed
/// name adds nothing. An NVIDIA card is listed twice, as a CUDA device and
/// as a DirectML device; any other card once, as a DirectML device. Each
/// backend numbers its devices in its own sequence.
pub open spec fn windows_step(st: WinScan, a: (Seq<char>, u64)) -> WinScan {
    let name = trim(a.0);
    let key = lowercase_of(name);
    let vram = gib_of(a.1);
    if name.len() == 0 || st.1.contains(key) {
        st
    } else if has_sub(uppercase_of(name), "NVIDIA"@) {
        (
            st.0.push(("cuda"@, st.2 as i32, name, vram)).push(("dml"@, st.3 as i32, name, vram)),
            st.1.push(key),
            st.2 + 1,
            st.3 + 1,
        )
    } else {
        (st.0.push(("dml"@, st.3 as i32, name, vram)), st.1.push(key), st.2, st.3 + 1)
    }
}

/// The scan after all of `s`.
pub open spec fn windows_run(st: WinScan, s: Seq<(Seq<char>, u64)>) -> WinScan
    decreases s.len(),
{
    if s.len() == 0 {
        st
    } else {
        windows_step(windows_run(st, s.drop_last()), s.last())
    }
}

/// Adds the Windows display adapters `adapters` (name, adapter RAM in
/// bytes) to `gpus`, skipping names already in `seen` (and recording the
/// new ones there).
pub fn scan_windows(adapters: &Vec<(String, u64)>, gpus: &mut Vec<GpuInfo>, seen: &mut Vec<Vec<char>>)
    requires
        adapters.len() < i32::MAX,
    ensures
        ({
            let st = windows_run(
                (Seq::empty(), old(seen)@.map_values(|x: Vec<char>| x@), 0, 0),
                adapters@.map_values(|a: (String, u64)| (a.0@, a.1)),
            );
            &&& final(gpus)@.map_values(|g: GpuInfo| gpu_view(g)) == old(gpus)@.map_values(
                |g: GpuInfo| gpu_view(g),
            ) + st.0
            &&& final(seen)@.map_values(|x: Vec<char>| x@) == st.1
        }),
{
    let ghost av = adapters@.map_values(|a: (String, u64)| (a.0@, a.1));
    let ghost g0 = gpus@.map_values(|g: GpuInfo| gpu_view(g));
    let ghost s0 = seen@.map_values(|x: Vec<char>| x@);
    let mut cuda: i32 = 0;
    let mut dml: i32 = 0;
    let mut i: usize = 0;
    assert(av.take(0) =~= Seq::<(Seq<char>, u64)>::empty());
    assert(g0 + Seq::<GpuView>::empty() =~= g0);
    while i < adapters.len()
        invariant
            i <= adapters.len() < i32::MAX,
            av == adapters@.map_values(|a: (String, u64)| (a.0@, a.1)),
            0 <= cuda <= i,
            0 <= dml <= i,
            ({
                let st = windows_run((Seq::empty(), s0, 0, 0), av.take(i as int));
                &&& gpus@.map_values(|g: GpuInfo| gpu_view(g)) == g0 + st.0
                &&& seen@.map_values(|x: Vec<char>| x@) == st.1
                &&& st.2 == cuda as int
                &&& st.3 == dml as int
            }),
        decreases adapters.len() - i,
    {
        assert(av.take(i + 1).drop_last() =~= av.take(i as int));
        assert(av.take(i + 1).last() == (adapters[i as int].0@, adapters[i as int].1));
        let name = trim_chars(&chars_of(adapters[i].0.as_str()));
        let vram: u64 = adapters[i].1 / 1073741824;
        if name.len() > 0 {
            let name_s = string_of(&name);
            if note_name(seen, name_s.as_str()) {
                let nvidia = contains_chars(&upper_chars(&name), &chars_of("NVIDIA"));
                if nvidia {
                    let ghost before = gpus@.map_values(|g: GpuInfo| gpu_view(g));
                    let g = GpuInfo {
                        backend: "cuda".to_string(),
                        id: cuda,
                        name: string_of(&name),
                        vram_gb: vram,
                    };
                    let ghost gv = gpu_view(g);
                    gpus.push(g);
                    assert(gpus@.map_values(|g: GpuInfo| gpu_view(g)) =~= before.push(gv));
                    cuda = cuda + 1;
                }
                let ghost before = gpus@.map_values(|g: GpuInfo| gpu_view(g));
                let g = GpuInfo { backend: "dml".to_string(), id: dml, name: name_s, vram_gb: vram };
                let ghost gv = gpu_view(g);
                gpus.push(g);
                assert(gpus@.map_values(|g: GpuInfo| gpu_view(g)) =~= before.push(gv));
                dml = dml + 1;
            }
        }
        i = i + 1;
    }
    assert(av.take(adapters.len() as int) =~= av);
}

/// VRAM in GB from a macOS `spdisplays_vram` text such as `8 GB` or
/// `1536 MB`: the first word read as a number, divided by 1024 when the
/// text mentions MB; nothing when there is no first word or it is not a
/// number.
pub open spec fn mac_vram(t: Seq<char>) -> Option<u64> {
    let w = words(t);
    if w.len() == 0 {
        None
    } else {
        match parse_u64(w[0]) {
            Some(n) => Some(
                if has_sub(t, "MB"@) {
                    (n / 1024) as u64
                } else {
                    n
                },
            ),
            None => None,
        }
    }
}

/// Reads a macOS `spdisplays_vram` text (see [`mac_vram`]).
pub fn mac_vram_gb(t: &str) -> (r: Option<u64>)
    ensures
        r == mac_vram(t@),
{
    let w = split_words(t);
    assert(w@.len() == words(t@).len());
    if w.len() == 0 {
        return None;
    }
    assert(w@[0]@ == words(t@)[0]);
    match parse_u64_chars(&chars_of(w[0].as_str())) {
        Some(n) => {
            if contains_chars(&chars_of(t), &chars_of("MB")) {
                Some(n / 1024)
            } else {
                Some(n)
            }
        },
        None => None,
    }
}

/// Whole GiB of memory from the output of `sysctl -n hw.memsize` (a byte
/// count); 0 when it is not a number.
pub open spec fn memsize_gib(out: Seq<char>) -> u64 {
    match parse_u64(trim(out)) {
        Some(b) => gib_of(b),
        None => 0,
    }
}

/// Reads the output of `sysctl -n hw.memsize` (see [`memsize_gib`]).
pub fn unified_memory_gb(out: &str) -> (r: u64)
    ensures
        r == memsize_gib(out@),
{
    match parse_u64_chars(&trim_chars(&chars_of(out))) {
        Some(b) => b / 1073741824,
        None => 0,
    }
}

/// One display in the `SPDisplaysDataType` list that macOS's
/// `system_profiler -json` prints: its model (`sppci_model`) and its VRAM
/// (`spdisplays_vram`), each when given as text.
pub struct MacDisplay {
    /// The model name.
    pub model: Option<String>,
    /// The VRAM text, such as `8 GB`.
    pub vram: Option<String>,
}

/// A display's model name and VRAM text, as plain values (a missing model
/// reads as the empty name).
pub type MacDisplayView = (Seq<char>, Option<Seq<char>>);

/// The view of a display.
pub open spec fn mac_display_view(d: MacDisplay) -> MacDisplayView {
    (
        match d.model {
            Some(m) => m@,
            None => Seq::empty(),
        },
        match d.vram {
            Some(t) => Some(t@),
            None => None,
        },
    )
}

/// The VRAM listed for a display: what its VRAM text reads as, else the
/// unified memory size `unified`.
pub open spec fn mac_display_vram(d: MacDisplayView, unified: u64) -> u64 {
    match d.1 {
        Some(t) => match mac_vram(t) {
            Some(g) => g,
            None => unified,
        },
        None => unified,
    }
}

/// The displays `ds` in order (the devices found and the lower-cased names
/// listed): a display with an empty or already listed name adds nothing;
/// any other becomes an `mps` device numbered by its position among all the
/// displays.
pub open spec fn mac_run(
    st: (Seq<GpuView>, Seq<Seq<char>>),
    ds: Seq<MacDisplayView>,
    unified: u64,
) -> (Seq<GpuView>, Seq<Seq<char>>)
    decreases ds.len(),
{
    if ds.len() == 0 {
        st
    } else {
        let prev = mac_run(st, ds.drop_last(), unified);
        let d = ds.last();
        let key = lowercase_of(d.0);
        if d.0.len() == 0 || prev.1.contains(key) {
            prev
        } else {
            (
                prev.0.push(("mps"@, (ds.len() - 1) as i32, d.0, mac_display_vram(d, unified))),
                prev.1.push(key),
            )
        }
    }
}

/// Adds the macOS displays `displays` (model name, VRAM text) to `gpus`,
/// with `unified` GB standing in where no VRAM figure reads; names already
/// in `seen` are skipped, new ones recorded there.
pub fn scan_mac(
    displays: &Vec<MacDisplay>,
    unified: u64,
    gpus: &mut Vec<GpuInfo>,
    seen: &mut Vec<Vec<char>>,
)
    requires
        displays.len() < i32::MAX,
    ensures
        ({
            let st = mac_run(
                (Seq::empty(), old(seen)@.map_values(|x: Vec<char>| x@)),
                displays@.map_values(
                    |d: MacDisplay| mac_display_view(d),
                ),
                unified,
            );
            &&& final(gpus)@.map_values(|g: GpuInfo| gpu_view(g)) == old(gpus)@.map_values(
                |g: GpuInfo| gpu_view(g),
            ) + st.0
            &&& final(seen)@.map_values(|x: Vec<char>| x@) == st.1
        }),
{
    let ghost dv = displays@.map_values(
        |d: MacDisplay| mac_display_view(d),
    );
    let ghost g0 = gpus@.map_values(|g: GpuInfo| gpu_view(g));
    let ghost s0 = seen@.map_values(|x: Vec<char>| x@);
    let mut i: usize = 0;
    assert(dv.take(0) =~= Seq::<MacDisplayView>::empty());
    assert(g0 + Seq::<GpuView>::empty() =~= g0);
    while i < displays.len()
        invariant
            i <= displays.len() < i32::MAX,
            dv == displays@.map_values(
                |d: MacDisplay| mac_display_view(d),
            ),
            ({
                let st = mac_run((Seq::empty(), s0), dv.take(i as int), unified);
                &&& gpus@.map_values(|g: GpuInfo| gpu_view(g)) == g0 + st.0
                &&& seen@.map_values(|x: Vec<char>| x@) == st.1
            }),
        decreases displays.len() - i,
    {
        assert(dv.take(i + 1).drop_last() =~= dv.take(i as int));
        assert(dv.take(i + 1).last() == dv[i as int]);
        let d = &displays[i];
        let model = match &d.model {
            Some(m) => m.clone(),
            None => String::new(),
        };
        if chars_of(model.as_str()).len() > 0 {
            if note_name(seen, model.as_str()) {
                let vram = match &d.vram {
                    Some(t) => match mac_vram_gb(t.as_str()) {
                        Some(g) => g,
                        None => unified,
                    },
                    None => unified,
                };
                let ghost before = gpus@.map_values(|g: GpuInfo| gpu_view(g));
                let g = GpuInfo {
                    backend: "mps".to_string(),
                    id: i as i32,
                    name: model,
                    vram_gb: vram,
                };
                let ghost gv = gpu_view(g);
                gpus.push(g);
                assert(gpus@.map_values(|g: GpuInfo| gpu_view(g)) =~= before.push(gv));
            }
        }
        i = i + 1;
    }
    assert(dv.take(displays.len() as int) =~= dv);
}

} // verus!
