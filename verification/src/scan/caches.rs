//! Cache scanner decisions: what a cache directory is worth, the app caches
//! under `~/Library/Caches`, and what Docker reports as reclaimable.
use vstd::prelude::*;
use crate::event::WorkerMsg;
use crate::model::{Category, DockerPrune, ItemAction, SafetyTier, ScanItem, item_is};
use crate::paths::join_path;
use crate::scan::PathSet;
use crate::text::{
    all_digits, chars_of, contains_chars, contains_seq, digit_value, digits_value, ends_with, lines, lines_spec,
    owned, parse_u64, parse_u64_spec, push_str, split_chars, split_on, starts_with, starts_with_chars,
    string_from, trim, trim_chars, ends_with_chars, lemma_split_on_nonempty, folds_to, char_folds_to,
};
use crate::model::str_equal;

verus! {

// ---------------------------------------------------------------------------
// Cache directories
// ---------------------------------------------------------------------------

/// Updater leftovers are Safe; Xcode and Cargo caches are Moderate (slow to
/// rebuild); other caches are Safe.
pub open spec fn cache_tier_spec(name: Seq<char>) -> SafetyTier {
    if contains_seq(name, "ShipIt"@) {
        SafetyTier::Safe
    } else if contains_seq(name, "DerivedData"@) || contains_seq(name, "DeviceSupport"@) || contains_seq(
        name,
        "cargo"@,
    ) {
        SafetyTier::Moderate
    } else {
        SafetyTier::Safe
    }
}

pub open spec fn cache_note_spec(name: Seq<char>) -> Seq<char> {
    if contains_seq(name, "ShipIt"@) {
        "updater leftover \u{2014} safe to remove"@
    } else {
        "regenerable cache"@
    }
}

fn has(name: &Vec<char>, pat: &str) -> (r: bool)
    ensures
        r == contains_seq(name@, pat@),
{
    contains_chars(name, &chars_of(pat))
}

/// The tier of a directory whose name matched a cache signature.
pub fn cache_tier(name: &str) -> (r: SafetyTier)
    ensures
        r == cache_tier_spec(name@),
{
    let n = chars_of(name);
    if has(&n, "ShipIt") {
        SafetyTier::Safe
    } else if has(&n, "DerivedData") || has(&n, "DeviceSupport") || has(&n, "cargo") {
        SafetyTier::Moderate
    } else {
        SafetyTier::Safe
    }
}

/// The note of a directory whose name matched a cache signature.
pub fn cache_note(name: &str) -> (r: &'static str)
    ensures
        r@ == cache_note_spec(name@),
{
    if has(&chars_of(name), "ShipIt") {
        "updater leftover \u{2014} safe to remove"
    } else {
        "regenerable cache"
    }
}

/// What the cache walk has found so far: the items, the directories already
/// claimed, and the running count and size reported to the UI.
pub struct CacheWalk {
    pub items: Vec<ScanItem>,
    pub seen: PathSet,
    pub found: usize,
    pub bytes: u64,
}

impl CacheWalk {
    pub open spec fn wf(self) -> bool {
        self.seen.wf()
    }

    pub fn new() -> (r: Self)
        ensures
            r.wf(),
            r.items@.len() == 0,
            r.seen.claimed().len() == 0,
            r.found == 0,
            r.bytes == 0,
    {
        CacheWalk { items: Vec::new(), seen: PathSet::new(), found: 0, bytes: 0 }
    }

    /// Records a directory whose name matched a cache signature and that no
    /// other walker reported (see [`PathSet::insert`]). An empty directory is
    /// skipped; otherwise its item is kept and the running totals go to the UI.
    pub fn record(&mut self, path: String, name: &str, bytes: u64, label: String) -> (r: Option<WorkerMsg>)
        requires
            old(self).wf(),
            old(self).found < usize::MAX,
        ensures
            final(self).wf(),
            final(self).seen == old(self).seen,
            bytes == 0 ==> *final(self) == *old(self) && r is None,
            bytes > 0 ==> {
                &&& final(self).items@.len() == old(self).items@.len() + 1
                &&& final(self).items@.drop_last() == old(self).items@
                &&& final(self).items@.last() == (ScanItem {
                    path: path,
                    label: label,
                    real_bytes: bytes,
                    tier: cache_tier_spec(name@),
                    category: Category::Caches,
                    last_access_days: 0,
                    regen_note: final(self).items@.last().regen_note,
                    selected: false,
                    group_id: None,
                    is_keeper: false,
                    action: ItemAction::Delete,
                })
                &&& final(self).items@.last().regen_note@ == cache_note_spec(name@)
                &&& final(self).found == old(self).found + 1
                &&& final(self).bytes == crate::clean::sat_add(old(self).bytes, bytes)
                &&& r == Some(WorkerMsg::ScanProgress {
                    category: Category::Caches,
                    found: final(self).found,
                    bytes: final(self).bytes,
                })
            },
    {
        if bytes == 0 {
            return None;
        }
        let tier = cache_tier(name);
        let note = cache_note(name);
        let item = crate::scan::item_from_dir(path, label, bytes, tier, Category::Caches, note);
        self.items.push(item);
        self.found = self.found + 1;
        self.bytes = crate::clean::saturating_add_u64(self.bytes, bytes);
        assert(self.items@.drop_last() == old(self).items@);
        Some(WorkerMsg::ScanProgress { category: Category::Caches, found: self.found, bytes: self.bytes })
    }
}

/// App caches whose name starts with `com.apple.` are Moderate, others Safe.
pub open spec fn app_cache_tier_spec(name: Seq<char>) -> SafetyTier {
    if starts_with(name, "com.apple."@) {
        SafetyTier::Moderate
    } else {
        SafetyTier::Safe
    }
}

/// The item for a folder directly under `~/Library/Caches`, labelled by its
/// name.
pub fn app_cache_item(path: String, name: String, bytes: u64) -> (r: ScanItem)
    ensures
        r == (ScanItem {
            path: path,
            label: name,
            real_bytes: bytes,
            tier: app_cache_tier_spec(name@),
            category: Category::Caches,
            last_access_days: 0,
            regen_note: r.regen_note,
            selected: false,
            group_id: None,
            is_keeper: false,
            action: ItemAction::Delete,
        }),
        r.regen_note@ == "app cache"@,
{
    let tier = if starts_with_chars(&chars_of(name.as_str()), &chars_of("com.apple.")) {
        SafetyTier::Moderate
    } else {
        SafetyTier::Safe
    };
    ScanItem::new(path, name, bytes, tier, Category::Caches).with_note("app cache")
}

// ---------------------------------------------------------------------------
// Docker
// ---------------------------------------------------------------------------

/// Where Docker Desktop keeps its VM disk, under home directory `home`.
pub open spec fn docker_raw_spec(home: Seq<char>) -> Seq<char> {
    join_path(home, "Library/Containers/com.docker.docker/Data/vms/0/data/Docker.raw"@)
}

pub fn docker_raw_path(home: &str) -> (r: String)
    ensures
        r@ == docker_raw_spec(home@),
{
    crate::paths::join(home, "Library/Containers/com.docker.docker/Data/vms/0/data/Docker.raw")
}

/// The item for Docker's VM disk, sized by the blocks it really uses.
pub fn docker_raw_item(path: String, bytes: u64) -> (r: ScanItem)
    ensures
        r.path == path,
        r.label@ == "Docker VM disk (sparse)"@,
        r.real_bytes == bytes,
        r.tier == SafetyTier::Moderate,
        r.category == Category::Caches,
        r.regen_note@ == "logical size may be huge; shown size is real disk usage"@,
        r.action == ItemAction::Delete,
        !r.selected && !r.is_keeper && r.group_id is None && r.last_access_days == 0,
{
    ScanItem::new(path, owned("Docker VM disk (sparse)"), bytes, SafetyTier::Moderate, Category::Caches).with_note(
        "logical size may be huge; shown size is real disk usage",
    )
}

/// The entry offered when Docker is installed but not running: Enter on it
/// starts Docker and rescans.
pub fn docker_start_item() -> (r: ScanItem)
    ensures
        r.path@ == "/docker-start"@,
        r.label@ == "Docker not running \u{2014} press Enter to start & rescan"@,
        r.real_bytes == 0,
        r.tier == SafetyTier::Moderate,
        r.category == Category::Caches,
        r.regen_note@ == "press Enter to launch Docker and rescan"@,
        r.action == ItemAction::Delete,
        !r.selected && !r.is_keeper && r.group_id is None && r.last_access_days == 0,
{
    ScanItem::new(
        owned("/docker-start"),
        owned("Docker not running \u{2014} press Enter to start & rescan"),
        0,
        SafetyTier::Moderate,
        Category::Caches,
    ).with_note("press Enter to launch Docker and rescan").with_action(ItemAction::Delete)
}

/// 10 to the power `n`.
pub open spec fn pow10(n: nat) -> nat
    decreases n,
{
    if n == 0 {
        1
    } else {
        10 * pow10((n - 1) as nat)
    }
}

/// The integer and fraction digits of a mantissa as `f64::from_str` reads
/// one: digits, and an optional point with more digits, at least one digit in
/// all.
pub open spec fn mantissa_parts(m: Seq<char>) -> Option<(Seq<char>, Seq<char>)> {
    let pieces = split_on(m, '.');
    let ip = pieces[0];
    let fp = if pieces.len() == 2 {
        pieces[1]
    } else {
        Seq::<char>::empty()
    };
    if pieces.len() <= 2 && all_digits(ip) && all_digits(fp) && ip.len() + fp.len() > 0 {
        Some((ip, fp))
    } else {
        None
    }
}

/// An exponent, `Sign? Digit+`: whether it is negative, and its magnitude.
pub open spec fn exp_value(ex: Seq<char>) -> Option<(bool, nat)> {
    let neg = ex.len() > 0 && ex[0] == '-';
    let d = if ex.len() > 0 && (ex[0] == '+' || ex[0] == '-') {
        ex.drop_first()
    } else {
        ex
    };
    if d.len() > 0 && all_digits(d) {
        Some((neg, digits_value(d)))
    } else {
        None
    }
}

/// `E` written as `e`.
pub open spec fn e_lower(s: Seq<char>) -> Seq<char> {
    s.map_values(|c: char| if c == 'E' { 'e' } else { c })
}

/// A number without its sign, as `f64::from_str` reads one that is not a
/// word: a mantissa and an optional exponent (`e` or `E`). Gives all the
/// mantissa's digits and the power of ten they are to be multiplied by.
pub open spec fn number_parts(body: Seq<char>) -> Option<(Seq<char>, int)> {
    let pieces = split_on(e_lower(body), 'e');
    let ex = if pieces.len() == 2 {
        exp_value(pieces[1])
    } else {
        Some((false, 0nat))
    };
    if pieces.len() > 2 {
        None
    } else {
        match (mantissa_parts(pieces[0]), ex) {
            (Some((ip, fp)), Some((neg, mag))) => Some((ip + fp, (if neg { -mag } else { mag as int }) - fp.len())),
            _ => None,
        }
    }
}

/// `s` is the word `w` (lower-case ASCII) in any case.
pub open spec fn is_word(s: Seq<char>, w: Seq<char>) -> bool {
    s.len() == w.len() && forall|k: int| 0 <= k < s.len() ==> #[trigger] folds_to(s[k], w[k])
}

/// `digits × 10^e × mult`, rounded toward zero.
pub open spec fn scaled_value(d: Seq<char>, e: int, mult: nat) -> nat {
    if e >= 0 {
        digits_value(d) * pow10(e as nat) * mult
    } else {
        digits_value(d) * mult / pow10((-e) as nat)
    }
}

pub open spec fn cap_u64(v: nat) -> nat {
    if v > u64::MAX {
        u64::MAX as nat
    } else {
        v
    }
}

/// A number as `f64::from_str` reads it, times `mult`, then converted to
/// `u64` as `as` does: negative numbers and `nan` give zero, `inf` and
/// `infinity` (any case) and everything too large give the largest `u64`,
/// anything unreadable gives zero. The product is taken exactly.
pub open spec fn float_scaled_spec(s: Seq<char>, mult: nat) -> nat {
    let neg = s.len() > 0 && s[0] == '-';
    let body = if s.len() > 0 && (s[0] == '+' || s[0] == '-') {
        s.drop_first()
    } else {
        s
    };
    if neg {
        0
    } else if is_word(body, "inf"@) || is_word(body, "infinity"@) {
        u64::MAX as nat
    } else {
        match number_parts(body) {
            None => 0,
            Some((d, e)) => cap_u64(scaled_value(d, e, mult)),
        }
    }
}

/// Docker's reclaimable size: `GB`, `MB` and `KB` values in powers of 1024
/// (read as floating-point numbers, see [`float_scaled_spec`]), plain `B`
/// values as whole bytes; anything else is 0.
pub open spec fn docker_size_spec(s: Seq<char>) -> nat {
    let t = trim(s);
    if ends_with(t, "GB"@) {
        float_scaled_spec(trim(t.take(t.len() - 2)), 1073741824)
    } else if ends_with(t, "MB"@) {
        float_scaled_spec(trim(t.take(t.len() - 2)), 1048576)
    } else if ends_with(t, "KB"@) {
        float_scaled_spec(trim(t.take(t.len() - 2)), 1024)
    } else if ends_with(t, "B"@) {
        match parse_u64_spec(trim(t.take(t.len() - 1))) {
            Some(v) => v as nat,
            None => 0,
        }
    } else {
        0
    }
}

proof fn lemma_pow10_positive(n: nat)
    ensures
        pow10(n) >= 1,
    decreases n,
{
    if n > 0 {
        lemma_pow10_positive((n - 1) as nat);
    }
}

/// The value of a digit followed by more digits.
proof fn lemma_digits_value_cons(d: char, t: Seq<char>)
    ensures
        digits_value(seq![d] + t) == digit_value(d) * pow10(t.len()) + digits_value(t),
    decreases t.len(),
{
    if t.len() == 0 {
        assert(seq![d] + t =~= seq![d]);
        assert(seq![d].drop_last() =~= Seq::<char>::empty());
        assert(digits_value(seq![d]) == digits_value(Seq::<char>::empty()) * 10 + digit_value(d));
        assert(pow10(0) == 1);
    } else {
        let u = t.drop_last();
        lemma_digits_value_cons(d, u);
        assert((seq![d] + t).drop_last() =~= seq![d] + u);
        assert((seq![d] + t).last() == t.last());
        let dv = digit_value(d) as int;
        let pk = pow10(u.len()) as int;
        let uv = digits_value(u) as int;
        assert(digits_value(seq![d] + t) == (dv * pk + uv) * 10 + digit_value(t.last()));
        assert(digits_value(t) == uv * 10 + digit_value(t.last()));
        assert(pow10(t.len()) == 10 * pk);
        assert((dv * pk + uv) * 10 == dv * (10 * pk) + uv * 10) by (nonlinear_arith);
    }
}

/// One step of the carry: the scaled value of the fraction digits from `j`
/// on, from the digit at `j` and the scaled value from `j + 1` on.
proof fn lemma_carry_step(f: Seq<char>, j: int, mult: int)
    requires
        0 <= j < f.len(),
        all_digits(f),
        mult >= 0,
    ensures
        (digits_value(f.skip(j)) * mult) / (pow10((f.len() - j) as nat) as int) == (digit_value(f[j]) * mult
            + (digits_value(f.skip(j + 1)) * mult) / (pow10((f.len() - j - 1) as nat) as int)) / 10,
{
    let k = (f.len() - j - 1) as nat;
    let t = f.skip(j + 1);
    let d = f[j];
    assert(f.skip(j) =~= seq![d] + t);
    lemma_digits_value_cons(d, t);
    lemma_pow10_positive(k);
    let p: int = pow10(k) as int;
    let dv: int = digit_value(d) as int;
    let tv: int = digits_value(t) as int;
    let a: int = tv * mult;
    let q: int = a / p;
    let r: int = a % p;
    vstd::arithmetic::div_mod::lemma_fundamental_div_mod(a, p);
    let x: int = (dv * p + tv) * mult;
    assert(x == p * (dv * mult + q) + r) by (nonlinear_arith)
        requires
            x == (dv * p + tv) * mult,
            a == tv * mult,
            a == p * q + r,
    ;
    assert(0 <= r < p);
    assert(a >= 0) by (nonlinear_arith)
        requires
            tv >= 0,
            mult >= 0,
            a == tv * mult,
    ;
    assert(q >= 0) by (nonlinear_arith)
        requires
            a >= 0,
            p > 0,
            q == a / p,
    ;
    vstd::arithmetic::div_mod::lemma_div_multiples_vanish_fancy(dv * mult + q, r, p);
    assert(x >= 0) by (nonlinear_arith)
        requires
            x == p * (dv * mult + q) + r,
            p > 0,
            dv >= 0,
            mult >= 0,
            q >= 0,
            r >= 0,
    ;
    vstd::arithmetic::div_mod::lemma_div_denominator(x, p, 10);
    assert(pow10((f.len() - j) as nat) == 10 * pow10(k));
    assert(p * 10 == pow10((f.len() - j) as nat) as int);
    assert(digits_value(f.skip(j)) * mult == x);
}

/// `floor(0.f × mult)` for the fraction digits `f`, from the right: each
/// digit adds `digit × mult` to the carry, which is then divided by ten.
fn scaled_fraction(f: &Vec<char>, mult: u64) -> (r: u64)
    requires
        all_digits(f@),
        mult <= 1073741824,
    ensures
        r == (digits_value(f@) * mult) / (pow10(f@.len()) as int),
        r < mult || mult == 0,
{
    let mut c: u64 = 0;
    let mut j = f.len();
    assert(f@.skip(j as int) =~= Seq::<char>::empty());
    while j > 0
        invariant
            j <= f@.len(),
            all_digits(f@),
            mult <= 1073741824,
            c == (digits_value(f@.skip(j as int)) * mult) / (pow10((f@.len() - j) as nat) as int),
            c < mult || mult == 0,
        decreases j,
    {
        assert(crate::text::is_digit(f@[j - 1]));
        let d = (f[j - 1] as u64) - ('0' as u64);
        assert(d * mult <= 9 * 1073741824) by (nonlinear_arith)
            requires
                d <= 9,
                mult <= 1073741824,
        ;
        proof {
            lemma_carry_step(f@, j - 1, mult as int);
            assert(digit_value(f@[j - 1]) == d);
        }
        let c0 = c;
        c = (d * mult + c) / 10;
        assert(c < mult || mult == 0) by (nonlinear_arith)
            requires
                c == (d * mult + c0) / 10,
                d <= 9,
                c0 < mult || mult == 0,
        ;
        j = j - 1;
    }
    assert(f@.skip(0) =~= f@);
    c
}

fn all_digit_chars(v: &Vec<char>, from: usize, to: usize) -> (r: bool)
    requires
        from <= to <= v@.len(),
    ensures
        r == all_digits(v@.subrange(from as int, to as int)),
{
    let mut i = from;
    while i < to
        invariant
            from <= i <= to,
            to <= v@.len(),
            all_digits(v@.subrange(from as int, i as int)),
        decreases to - i,
    {
        if !('0' <= v[i] && v[i] <= '9') {
            assert(v@.subrange(from as int, to as int)[i - from] == v@[i as int]);
            return false;
        }
        i = i + 1;
    }
    true
}

proof fn lemma_digits_value_concat(a: Seq<char>, b: Seq<char>)
    ensures
        digits_value(a + b) == digits_value(a) * pow10(b.len()) + digits_value(b),
    decreases b.len(),
{
    if b.len() == 0 {
        assert(a + b =~= a);
        assert(pow10(0) == 1);
        assert(digits_value(a) * 1 == digits_value(a));
    } else {
        let b1 = b.drop_last();
        lemma_digits_value_concat(a, b1);
        assert((a + b).drop_last() =~= a + b1);
        assert((a + b).last() == b.last());
        assert(digits_value(a + b) == digits_value(a + b1) * 10 + digit_value(b.last()));
        assert(digits_value(b) == digits_value(b1) * 10 + digit_value(b.last()));
        assert(pow10(b.len()) == 10 * pow10(b1.len()));
        let av = digits_value(a) as int;
        let p1 = pow10(b1.len()) as int;
        let bv = digits_value(b1) as int;
        let dl = digit_value(b.last()) as int;
        assert(digits_value(a + b) == av * pow10(b.len()) + digits_value(b)) by (nonlinear_arith)
            requires
                digits_value(a + b) == digits_value(a + b1) * 10 + dl,
                digits_value(a + b1) == av * p1 + bv,
                digits_value(b) == bv * 10 + dl,
                pow10(b.len()) == 10 * p1,
        ;
    }
}

proof fn lemma_digits_value_lt_pow10(d: Seq<char>)
    requires
        all_digits(d),
    ensures
        digits_value(d) < pow10(d.len()),
    decreases d.len(),
{
    if d.len() > 0 {
        let d1 = d.drop_last();
        assert(all_digits(d1)) by {
            assert forall|i: int| 0 <= i < d1.len() implies crate::text::is_digit(#[trigger] d1[i]) by {
                assert(d1[i] == d[i]);
            }
        }
        lemma_digits_value_lt_pow10(d1);
        assert(crate::text::is_digit(d[d.len() - 1]));
        assert(digit_value(d.last()) <= 9);
        let v = digits_value(d1) as int;
        let p = pow10(d1.len()) as int;
        assert(v * 10 + 9 < 10 * p) by (nonlinear_arith)
            requires
                v < p,
        ;
    }
}

proof fn lemma_pow10_add(a: nat, b: nat)
    ensures
        pow10(a + b) == pow10(a) * pow10(b),
    decreases b,
{
    if b == 0 {
        assert(pow10(0) == 1);
        assert(a + b == a);
        assert(pow10(a) * 1 == pow10(a));
    } else {
        lemma_pow10_add(a, (b - 1) as nat);
        assert((a + b - 1) as nat == a + (b - 1) as nat);
        assert(pow10(a + b) == 10 * pow10((a + b - 1) as nat));
        assert(pow10(b) == 10 * pow10((b - 1) as nat));
        let x = pow10(a) as int;
        let y = pow10((b - 1) as nat) as int;
        assert(pow10(a + b) == pow10(a) * pow10(b)) by (nonlinear_arith)
            requires
                pow10(a + b) == 10 * pow10((a + b - 1) as nat),
                pow10((a + b - 1) as nat) == x * y,
                pow10(b) == 10 * y,
                pow10(a) == x,
        ;
    }
}

proof fn lemma_pow10_mono(a: nat, b: nat)
    requires
        a <= b,
    ensures
        pow10(a) <= pow10(b),
    decreases b,
{
    if a < b {
        lemma_pow10_mono(a, (b - 1) as nat);
        lemma_pow10_positive((b - 1) as nat);
    }
}

/// The value of a run of digits, or `cap` once it reaches `cap`.
fn capped_value(d: &Vec<char>, cap: u128) -> (r: u128)
    requires
        all_digits(d@),
        1 <= cap <= 0x1_0000_0000_0000_0000_0000_0000_0000u128,
    ensures
        r <= cap,
        r == digits_value(d@) || (r == cap && digits_value(d@) >= cap),
{
    let mut whole: u128 = 0;
    let mut k: usize = 0;
    while k < d.len()
        invariant
            k <= d@.len(),
            all_digits(d@),
            1 <= cap <= 0x1_0000_0000_0000_0000_0000_0000_0000u128,
            whole <= cap,
            whole == digits_value(d@.take(k as int)) || (whole == cap && digits_value(d@.take(k as int)) >= cap),
        decreases d.len() - k,
    {
        assert(crate::text::is_digit(d@[k as int]));
        let c = (d[k] as u128) - ('0' as u128);
        assert(d@.take(k + 1).drop_last() == d@.take(k as int));
        assert(d@.take(k + 1).last() == d@[k as int]);
        assert(digit_value(d@[k as int]) == c);
        assert(digits_value(d@.take(k + 1)) == digits_value(d@.take(k as int)) * 10 + c);
        if whole >= cap {
            assert(digits_value(d@.take(k + 1)) >= cap) by (nonlinear_arith)
                requires
                    digits_value(d@.take(k as int)) >= cap,
                    digits_value(d@.take(k + 1)) == digits_value(d@.take(k as int)) * 10 + c,
            ;
        } else {
            let w = whole * 10 + c;
            whole = if w >= cap {
                cap
            } else {
                w
            };
        }
        k = k + 1;
    }
    assert(d@.take(d@.len() as int) == d@);
    whole
}

/// `(ip.fp) × mult`, rounded toward zero and capped at the largest `u64`.
fn scaled_digits(ip: &Vec<char>, fp: &Vec<char>, mult: u64) -> (r: u64)
    requires
        all_digits(ip@),
        all_digits(fp@),
        1 <= mult <= 1073741824,
    ensures
        r == cap_u64(
            (digits_value(ip@) * pow10(fp@.len()) + digits_value(fp@)) * (mult as nat) / pow10(fp@.len()),
        ),
{
    let frac = scaled_fraction(fp, mult);
    let ghost m = pow10(fp@.len());
    proof {
        lemma_pow10_positive(fp@.len());
        vstd::arithmetic::div_mod::lemma_hoist_over_denominator(
            (digits_value(fp@) * mult) as int,
            (digits_value(ip@) * mult) as int,
            m,
        );
        assert((digits_value(ip@) * m + digits_value(fp@)) * mult == digits_value(fp@) * mult + (digits_value(ip@)
            * mult) * m) by (nonlinear_arith);
    }
    let whole = capped_value(ip, 0x1_0000_0000_0000_0000u128);
    if whole >= 0x1_0000_0000_0000_0000u128 {
        assert(digits_value(ip@) * mult + frac > u64::MAX) by (nonlinear_arith)
            requires
                digits_value(ip@) >= 0x1_0000_0000_0000_0000,
                mult >= 1,
        ;
        return 0xffff_ffff_ffff_ffffu64;
    }
    assert(whole * mult + frac < 0x1_0000_0000_0000_0000_0000_0000) by (nonlinear_arith)
        requires
            whole < 0x1_0000_0000_0000_0000,
            mult <= 1073741824,
            frac < mult,
    ;
    let v = whole * (mult as u128) + (frac as u128);
    if v > 0xffff_ffff_ffff_ffffu128 {
        0xffff_ffff_ffff_ffffu64
    } else {
        v as u64
    }
}

/// The exponent `Sign? Digit+`: whether it is negative and its magnitude,
/// capped at 2^100.
fn parse_exp(ex: &Vec<char>) -> (r: Option<(bool, u128)>)
    ensures
        match exp_value(ex@) {
            None => r is None,
            Some((neg, mag)) => r matches Some((n, m)) && n == neg && (m == mag || (m
                == 0x10_0000_0000_0000_0000_0000_0000u128 && mag >= m)) && m <= 0x10_0000_0000_0000_0000_0000_0000u128,
        },
{
    let neg = ex.len() > 0 && ex[0] == '-';
    let start: usize = if ex.len() > 0 && (ex[0] == '+' || ex[0] == '-') {
        1
    } else {
        0
    };
    let mut d: Vec<char> = Vec::new();
    let mut i = start;
    while i < ex.len()
        invariant
            start <= i <= ex@.len(),
            start <= ex@.len(),
            d@ == ex@.subrange(start as int, i as int),
        decreases ex.len() - i,
    {
        d.push(ex[i]);
        assert(ex@.subrange(start as int, i + 1) == ex@.subrange(start as int, i as int).push(ex@[i as int]));
        i = i + 1;
    }
    assert(d@ == (if ex@.len() > 0 && (ex@[0] == '+' || ex@[0] == '-') {
        ex@.drop_first()
    } else {
        ex@
    }));
    if d.len() == 0 || !all_digit_chars(&d, 0, d.len()) {
        assert(d@.subrange(0, d@.len() as int) == d@);
        return None;
    }
    assert(d@.subrange(0, d@.len() as int) == d@);
    let m = capped_value(&d, 0x10_0000_0000_0000_0000_0000_0000u128);
    Some((neg, m))
}

/// `s` is the lower-case ASCII word `w`, in any case.
fn word_is(s: &Vec<char>, w: &Vec<char>) -> (r: bool)
    requires
        forall|k: int| 0 <= k < w@.len() ==> #[trigger] w@[k] < '\u{80}' && !('A' <= w@[k] && w@[k] <= 'Z'),
    ensures
        r == is_word(s@, w@),
{
    if s.len() != w.len() {
        return false;
    }
    for k in 0..s.len()
        invariant
            s@.len() == w@.len(),
            forall|j: int| 0 <= j < w@.len() ==> #[trigger] w@[j] < '\u{80}' && !('A' <= w@[j] && w@[j] <= 'Z'),
            forall|j: int| 0 <= j < k ==> #[trigger] folds_to(s@[j], w@[j]),
    {
        if !char_folds_to(s[k], w[k]) {
            return false;
        }
    }
    true
}

/// The digits of a number without its sign (see [`number_parts`]), whether
/// its exponent is negative, the exponent's magnitude capped at 2^100, and the
/// count of fraction digits.
fn number_digits(body: &Vec<char>) -> (r: Option<(Vec<char>, bool, u128, usize)>)
    ensures
        r is None <==> number_parts(body@) is None,
        r matches Some((d, eneg, emag, fl)) ==> number_parts(body@) matches Some((dd, e)) && {
            &&& d@ == dd
            &&& all_digits(d@)
            &&& fl <= d@.len()
            &&& emag <= 0x10_0000_0000_0000_0000_0000_0000u128
            &&& eneg ==> e <= -(emag as int) - fl && (emag < 0x10_0000_0000_0000_0000_0000_0000u128 ==> e == -(
                emag as int) - fl)
            &&& !eneg ==> e >= emag - fl && (emag < 0x10_0000_0000_0000_0000_0000_0000u128 ==> e == emag - fl)
        },
{
    let mut lowered: Vec<char> = Vec::new();
    for i in 0..body.len()
        invariant
            lowered@ == e_lower(body@.take(i as int)),
    {
        lowered.push(if body[i] == 'E' {
            'e'
        } else {
            body[i]
        });
        assert(lowered@ =~= e_lower(body@.take(i + 1)));
    }
    assert(body@.take(body@.len() as int) =~= body@);
    let pieces = split_chars(&lowered, 'e');
    proof {
        lemma_split_on_nonempty(lowered@, 'e');
    }
    if pieces.len() > 2 {
        return None;
    }
    let (eneg, emag): (bool, u128) = if pieces.len() == 2 {
        match parse_exp(&pieces[1]) {
            Some(p) => p,
            None => {
                return None;
            },
        }
    } else {
        (false, 0)
    };
    let mant = &pieces[0];
    let mp = split_chars(mant, '.');
    proof {
        lemma_split_on_nonempty(mant@, '.');
    }
    if mp.len() > 2 {
        return None;
    }
    let ip = &mp[0];
    let empty: Vec<char> = Vec::new();
    let fp = if mp.len() == 2 {
        &mp[1]
    } else {
        &empty
    };
    if !all_digit_chars(ip, 0, ip.len()) || !all_digit_chars(fp, 0, fp.len()) || (ip.len() == 0 && fp.len() == 0) {
        assert(ip@.subrange(0, ip@.len() as int) == ip@);
        assert(fp@.subrange(0, fp@.len() as int) == fp@);
        return None;
    }
    assert(ip@.subrange(0, ip@.len() as int) == ip@);
    assert(fp@.subrange(0, fp@.len() as int) == fp@);
    let mut d: Vec<char> = ip.clone();
    for j in 0..fp.len()
        invariant
            d@ == ip@ + fp@.take(j as int),
    {
        d.push(fp[j]);
        assert(ip@ + fp@.take(j + 1) =~= (ip@ + fp@.take(j as int)).push(fp@[j as int]));
    }
    assert(fp@.take(fp@.len() as int) =~= fp@);
    assert(all_digits(d@)) by {
        assert forall|k: int| 0 <= k < d@.len() implies crate::text::is_digit(#[trigger] d@[k]) by {
            if k < ip@.len() {
                assert(d@[k] == ip@[k]);
            } else {
                assert(d@[k] == fp@[k - ip@.len()]);
            }
        }
    }
    Some((d, eneg, emag, fp.len()))
}

/// A number read as `f64::from_str` reads it, times `mult` (see
/// [`float_scaled_spec`]).
#[verifier::rlimit(40)]
fn scaled_float(s: &Vec<char>, mult: u64) -> (r: u64)
    requires
        1 <= mult <= 1073741824,
    ensures
        r == float_scaled_spec(s@, mult as nat),
{
    let neg = s.len() > 0 && s[0] == '-';
    if neg {
        return 0;
    }
    let start: usize = if s.len() > 0 && s[0] == '+' {
        1
    } else {
        0
    };
    let mut body: Vec<char> = Vec::new();
    let mut i = start;
    while i < s.len()
        invariant
            start <= i <= s@.len(),
            start <= s@.len(),
            body@ == s@.subrange(start as int, i as int),
        decreases s.len() - i,
    {
        body.push(s[i]);
        assert(s@.subrange(start as int, i + 1) == s@.subrange(start as int, i as int).push(s@[i as int]));
        i = i + 1;
    }
    assert(body@ == (if s@.len() > 0 && (s@[0] == '+' || s@[0] == '-') {
        s@.drop_first()
    } else {
        s@
    }));
    proof {
        reveal_strlit("inf");
        reveal_strlit("infinity");
    }
    let w_inf = chars_of("inf");
    let w_infinity = chars_of("infinity");
    if word_is(&body, &w_inf) || word_is(&body, &w_infinity) {
        return 0xffff_ffff_ffff_ffffu64;
    }
    let (d, eneg, emag, fl) = match number_digits(&body) {
        Some(p) => p,
        None => {
            return 0;
        },
    };
    let ghost e = number_parts(body@)->Some_0.1;
    assert(number_parts(body@) == Some((d@, e)));
    let wd = capped_value(&d, 0x1_0000_0000_0000_0000u128);
    if wd == 0 {
        proof {
            lemma_zero_digits(d@, e, mult as nat);
        }
        return 0;
    }
    let len = d.len() as u128;
    let flu = fl as u128;
    if !eneg {
        if emag >= flu {
            let up = emag - flu;
            if up >= 20 {
                proof {
                    lemma_big_power(d@, e, mult as nat);
                }
                return 0xffff_ffff_ffff_ffffu64;
            }
            assert(e == up);
            scaled_up(&d, wd, up as usize, mult)
        } else {
            assert(e == emag - fl);
            scaled_down(&d, flu - emag, mult)
        }
    } else {
        let k = emag + flu;
        if k == 0 {
            assert(e == 0);
            return scaled_up(&d, wd, 0, mult);
        }
        if k > len + 10 {
            proof {
                lemma_tiny_power(d@, e, mult as nat);
            }
            return 0;
        }
        assert(e == -(k as int));
        scaled_down(&d, k, mult)
    }
}

/// Digits worth nothing give nothing, however they are scaled.
proof fn lemma_zero_digits(d: Seq<char>, e: int, mult: nat)
    requires
        digits_value(d) == 0,
    ensures
        scaled_value(d, e, mult) == 0,
{
    if e < 0 {
        lemma_pow10_positive((-e) as nat);
        vstd::arithmetic::div_mod::lemma_basic_div(0, pow10((-e) as nat) as int);
    }
}

/// Digits worth at least 1 times ten to at least 20 exceed any `u64`.
proof fn lemma_big_power(d: Seq<char>, e: int, mult: nat)
    requires
        digits_value(d) >= 1,
        e >= 20,
        mult >= 1,
    ensures
        cap_u64(scaled_value(d, e, mult)) == u64::MAX,
{
    lemma_pow10_mono(20, e as nat);
    reveal_with_fuel(pow10, 21);
    assert(pow10(20) == 100000000000000000000nat);
    let p = pow10(e as nat) as int;
    let dv = digits_value(d) as int;
    assert(dv * p * mult >= 100000000000000000000) by (nonlinear_arith)
        requires
            dv >= 1,
            p >= 100000000000000000000,
            mult >= 1,
    ;
}

/// Digits divided by ten to more than ten plus their count do not reach one
/// byte, even times `mult`.
proof fn lemma_tiny_power(d: Seq<char>, e: int, mult: nat)
    requires
        all_digits(d),
        -e > d.len() + 10,
        mult <= 1073741824,
    ensures
        scaled_value(d, e, mult) == 0,
{
    lemma_digits_value_lt_pow10(d);
    lemma_pow10_add(d.len(), 10);
    lemma_pow10_mono(d.len() + 10, (-e) as nat);
    reveal_with_fuel(pow10, 11);
    assert(pow10(10) == 10000000000nat);
    let pl = pow10(d.len()) as int;
    let pk = pow10((-e) as nat) as int;
    let dv = digits_value(d) as int;
    assert(dv * mult < pk) by (nonlinear_arith)
        requires
            dv < pl,
            mult <= 1073741824,
            pl * 10000000000 <= pk,
            dv >= 0,
    ;
    vstd::arithmetic::div_mod::lemma_basic_div((dv * mult) as int, pk);
}

/// `digits × 10^en × mult`, capped, given the digits' value capped at 2^64.
fn scaled_up(d: &Vec<char>, wd: u128, en: usize, mult: u64) -> (r: u64)
    requires
        en < 20,
        1 <= mult <= 1073741824,
        digits_value(d@) >= 1,
        wd <= 0x1_0000_0000_0000_0000u128,
        wd == digits_value(d@) || (wd == 0x1_0000_0000_0000_0000u128 && digits_value(d@) >= 0x1_0000_0000_0000_0000),
    ensures
        r == cap_u64(scaled_value(d@, en as int, mult as nat)),
{
    let ghost dv = digits_value(d@);
    let mut w: u128 = wd;
    let mut j: usize = 0;
    assert(pow10(0) == 1);
    while j < en
        invariant
            0 <= j <= en,
            en < 20,
            dv >= 1,
            w <= 0x1_0000_0000_0000_0000u128,
            w == dv * pow10(j as nat) || (w == 0x1_0000_0000_0000_0000u128 && dv * pow10(j as nat)
                >= 0x1_0000_0000_0000_0000),
        decreases en - j,
    {
        assert(pow10((j + 1) as nat) == 10 * pow10(j as nat));
        let ghost p = pow10(j as nat) as int;
        assert(dv * pow10((j + 1) as nat) == (dv * p) * 10) by (nonlinear_arith)
            requires
                pow10((j + 1) as nat) == 10 * p,
        ;
        if w < 0x1_0000_0000_0000_0000u128 {
            let v = w * 10;
            w = if v >= 0x1_0000_0000_0000_0000u128 {
                0x1_0000_0000_0000_0000u128
            } else {
                v
            };
        }
        j = j + 1;
    }
    let ghost p = pow10(en as nat) as int;
    if w >= 0x1_0000_0000_0000_0000u128 {
        assert(dv * p * mult >= 0x1_0000_0000_0000_0000) by (nonlinear_arith)
            requires
                dv * p >= 0x1_0000_0000_0000_0000,
                mult >= 1,
        ;
        return 0xffff_ffff_ffff_ffffu64;
    }
    assert(w * mult < 0x1_0000_0000_0000_0000_0000_0000) by (nonlinear_arith)
        requires
            w < 0x1_0000_0000_0000_0000,
            mult <= 1073741824,
    ;
    let v = w * (mult as u128);
    if v > 0xffff_ffff_ffff_ffffu128 {
        0xffff_ffff_ffff_ffffu64
    } else {
        v as u64
    }
}

/// `digits × mult / 10^ku`, rounded toward zero and capped.
fn scaled_down(d: &Vec<char>, ku: u128, mult: u64) -> (r: u64)
    requires
        all_digits(d@),
        1 <= ku <= d@.len() + 10,
        1 <= mult <= 1073741824,
    ensures
        r == cap_u64(scaled_value(d@, -(ku as int), mult as nat)),
{
    let ghost dv = digits_value(d@);
    let n = d.len();
    let mut ip2: Vec<char> = Vec::new();
    let mut fp2: Vec<char> = Vec::new();
    if ku <= n as u128 {
        let cut = n - (ku as usize);
        for j in 0..cut
            invariant
                cut <= n,
                n == d@.len(),
                ip2@ == d@.take(j as int),
        {
            ip2.push(d[j]);
            assert(d@.take(j + 1) == d@.take(j as int).push(d@[j as int]));
        }
        for j in cut..n
            invariant
                cut <= n,
                n == d@.len(),
                fp2@ == d@.subrange(cut as int, j as int),
        {
            fp2.push(d[j]);
            assert(d@.subrange(cut as int, j + 1) == d@.subrange(cut as int, j as int).push(d@[j as int]));
        }
        assert(ip2@ + fp2@ =~= d@);
        proof {
            lemma_digits_value_concat(ip2@, fp2@);
        }
    } else {
        let pad = (ku - n as u128) as usize;
        for j in 0..pad
            invariant
                fp2@.len() == j,
                forall|q: int| 0 <= q < j ==> fp2@[q] == '0',
        {
            fp2.push('0');
        }
        let ghost zeros = fp2@;
        for j in 0..n
            invariant
                n == d@.len(),
                fp2@ == zeros + d@.take(j as int),
        {
            fp2.push(d[j]);
            assert(d@.take(j + 1) == d@.take(j as int).push(d@[j as int]));
            assert(zeros + d@.take(j + 1) =~= (zeros + d@.take(j as int)).push(d@[j as int]));
        }
        assert(d@.take(n as int) =~= d@);
        proof {
            lemma_digits_value_zeros(zeros);
            lemma_digits_value_concat(zeros, d@);
            assert(digits_value(ip2@) == 0);
        }
    }
    assert(fp2@.len() == ku);
    assert(all_digits(ip2@)) by {
        assert forall|q: int| 0 <= q < ip2@.len() implies crate::text::is_digit(#[trigger] ip2@[q]) by {
            assert(ip2@[q] == d@[q]);
        }
    }
    assert(all_digits(fp2@)) by {
        assert forall|q: int| 0 <= q < fp2@.len() implies crate::text::is_digit(#[trigger] fp2@[q]) by {
            if ku <= n as u128 {
                assert(fp2@[q] == d@[(n - ku) + q]);
            } else {
                if q >= ku - n {
                    assert(fp2@[q] == d@[q - (ku - n)]);
                }
            }
        }
    }
    assert(digits_value(ip2@) * pow10(fp2@.len()) + digits_value(fp2@) == dv) by (nonlinear_arith)
        requires
            ku <= n ==> digits_value(ip2@ + fp2@) == digits_value(ip2@) * pow10(fp2@.len()) + digits_value(fp2@),
            ku <= n ==> ip2@ + fp2@ == d@,
            ku > n ==> digits_value(ip2@) == 0 && digits_value(fp2@) == dv,
            dv >= 0,
            dv == digits_value(d@),
    ;
    scaled_digits(&ip2, &fp2, mult)
}

proof fn lemma_digits_value_zeros(z: Seq<char>)
    requires
        forall|q: int| 0 <= q < z.len() ==> z[q] == '0',
    ensures
        digits_value(z) == 0,
    decreases z.len(),
{
    if z.len() > 0 {
        lemma_digits_value_zeros(z.drop_last());
    }
}

/// Parses the reclaimable column of `docker system df`.
pub fn parse_docker_size(s: &str) -> (r: u64)
    ensures
        r == docker_size_spec(s@),
{
    proof {
        reveal_strlit("GB");
        reveal_strlit("MB");
        reveal_strlit("KB");
        reveal_strlit("B");
    }
    let t = trim_chars(&chars_of(s));
    let n = t.len();
    let mut cut = n;
    let mut mult: u64 = 0;
    if ends_with_chars(&t, &chars_of("GB")) {
        cut = n - 2;
        mult = 1073741824;
    } else if ends_with_chars(&t, &chars_of("MB")) {
        cut = n - 2;
        mult = 1048576;
    } else if ends_with_chars(&t, &chars_of("KB")) {
        cut = n - 2;
        mult = 1024;
    } else if ends_with_chars(&t, &chars_of("B")) {
        cut = n - 1;
        mult = 1;
    } else {
        proof {
            reveal_strlit("GB");
            reveal_strlit("MB");
            reveal_strlit("KB");
            reveal_strlit("B");
        }
        return 0;
    }
    proof {
        reveal_strlit("GB");
        reveal_strlit("MB");
        reveal_strlit("KB");
        reveal_strlit("B");
    }
    let mut num: Vec<char> = Vec::new();
    for i in 0..cut
        invariant
            cut <= t@.len(),
            num@ == t@.take(i as int),
    {
        num.push(t[i]);
        assert(t@.take(i + 1) == t@.take(i as int).push(t@[i as int]));
    }
    let num = trim_chars(&num);
    if mult == 1 {
        match parse_u64(&num) {
            Some(v) => v,
            None => 0,
        }
    } else {
        scaled_float(&num, mult)
    }
}

/// The Docker data kinds that can be pruned, by their `docker system df`
/// name: the item's label and its prune.
pub open spec fn docker_kind(kind: Seq<char>) -> Option<(Seq<char>, DockerPrune)> {
    if kind == "Build Cache"@ {
        Some(("Docker build cache"@, DockerPrune::BuildCache))
    } else if kind == "Images"@ {
        Some(("Docker unused images"@, DockerPrune::Images))
    } else if kind == "Containers"@ {
        Some(("Docker stopped containers"@, DockerPrune::Containers))
    } else if kind == "Local Volumes"@ {
        Some(("Docker dangling volumes"@, DockerPrune::Volumes))
    } else {
        None
    }
}

/// The prune item of one `Type<TAB>Reclaimable` line, if it names a known
/// kind with something to reclaim.
pub open spec fn docker_line_item(line: Seq<char>) -> Option<(Seq<char>, u64, DockerPrune)> {
    let parts = split_on(line, '\t');
    if parts.len() < 2 {
        None
    } else {
        let reclaimable = trim(parts[1]);
        if reclaimable == "0B"@ || reclaimable.len() == 0 {
            None
        } else {
            match docker_kind(parts[0]) {
                None => None,
                Some((label, prune)) => Some(
                    (label + " ("@ + reclaimable + ")"@, docker_size_spec(reclaimable) as u64, prune),
                ),
            }
        }
    }
}

/// The prune items described by a list of `docker system df` lines, in order.
pub open spec fn docker_items_spec(ls: Seq<Seq<char>>) -> Seq<(Seq<char>, u64, DockerPrune)>
    decreases ls.len(),
{
    if ls.len() == 0 {
        Seq::empty()
    } else {
        let prev = docker_items_spec(ls.drop_last());
        match docker_line_item(ls.last()) {
            Some(x) => prev.push(x),
            None => prev,
        }
    }
}

/// A prune item: at `/docker-prune`, Moderate, with its label and size.
pub open spec fn is_prune_item(i: ScanItem, x: (Seq<char>, u64, DockerPrune)) -> bool {
    &&& i.path@ == "/docker-prune"@
    &&& i.label@ == x.0
    &&& i.real_bytes == x.1
    &&& i.tier == SafetyTier::Moderate
    &&& i.category == Category::Caches
    &&& i.regen_note@ == "docker prune \u{2014} data may need re-pull"@
    &&& i.action == ItemAction::DockerPrune(x.2)
    &&& !i.selected && !i.is_keeper && i.group_id is None && i.last_access_days == 0
}

fn docker_kind_of(kind: &Vec<char>) -> (r: Option<(&'static str, DockerPrune)>)
    ensures
        match r {
            Some((label, prune)) => docker_kind(kind@) == Some((label@, prune)),
            None => docker_kind(kind@) is None,
        },
{
    let k = string_from(kind);
    if str_equal(k.as_str(), "Build Cache") {
        Some(("Docker build cache", DockerPrune::BuildCache))
    } else if str_equal(k.as_str(), "Images") {
        Some(("Docker unused images", DockerPrune::Images))
    } else if str_equal(k.as_str(), "Containers") {
        Some(("Docker stopped containers", DockerPrune::Containers))
    } else if str_equal(k.as_str(), "Local Volumes") {
        Some(("Docker dangling volumes", DockerPrune::Volumes))
    } else {
        None
    }
}

/// The prune items for the output of
/// `docker system df --format "{{.Type}}\t{{.Reclaimable}}"`.
pub fn docker_df_items(out: &str) -> (r: Vec<ScanItem>)
    ensures
        r@.len() == docker_items_spec(lines_spec(out@)).len(),
        forall|i: int| 0 <= i < r@.len() ==> is_prune_item(#[trigger] r@[i], docker_items_spec(lines_spec(out@))[i]),
{
    let ls = lines(&chars_of(out));
    let ghost lsv = lines_spec(out@);
    let mut r: Vec<ScanItem> = Vec::new();
    for j in 0..ls.len()
        invariant
            lsv == lines_spec(out@),
            ls@.len() == lsv.len(),
            forall|i: int| 0 <= i < ls@.len() ==> #[trigger] ls@[i]@ == lsv[i],
            r@.len() == docker_items_spec(lsv.take(j as int)).len(),
            forall|i: int| 0 <= i < r@.len() ==> is_prune_item(#[trigger] r@[i], docker_items_spec(lsv.take(j as int))[i]),
    {
        assert(lsv.take(j + 1).drop_last() == lsv.take(j as int));
        assert(lsv.take(j + 1).last() == lsv[j as int]);
        let parts = split_chars(&ls[j], '\t');
        if parts.len() >= 2 {
            let rec = trim_chars(&parts[1]);
            let zero = chars_of("0B");
            let nothing = rec.len() == 0 || crate::model::chars_equal(&rec, &zero);
            if !nothing {
                match docker_kind_of(&parts[0]) {
                    Some((label, prune)) => {
                        let rec_s = string_from(&rec);
                        let mut text = String::new();
                        push_str(&mut text, label);
                        push_str(&mut text, " (");
                        push_str(&mut text, rec_s.as_str());
                        push_str(&mut text, ")");
                        let bytes = parse_docker_size(rec_s.as_str());
                        let item = ScanItem::new(
                            owned("/docker-prune"),
                            text,
                            bytes,
                            SafetyTier::Moderate,
                            Category::Caches,
                        ).with_note("docker prune \u{2014} data may need re-pull").with_action(
                            ItemAction::DockerPrune(prune),
                        );
                        r.push(item);
                        assert(docker_line_item(lsv[j as int]) == Some((text@, bytes, prune)));
                    },
                    None => {},
                }
            }
        }
    }
    assert(lsv.take(ls@.len() as int) == lsv);
    r
}

/// Docker's items: nothing unless Docker is installed; its VM disk when
/// present; then either what `docker system df` reports (when the daemon
/// answers) or the entry that starts Docker.
pub fn docker_scan_items(installed: bool, raw: Option<(String, u64)>, running: bool, df_out: Option<&str>) -> (r: Vec<ScanItem>)
    ensures
        !installed ==> r@.len() == 0,
        installed ==> {
            let head = if raw is Some {
                1int
            } else {
                0int
            };
            &&& raw matches Some((p, b)) ==> item_is(r@[0], p@, "Docker VM disk (sparse)"@, b, SafetyTier::Moderate,
                Category::Caches, "logical size may be huge; shown size is real disk usage"@, 0, ItemAction::Delete)
            &&& running ==> match df_out {
                Some(out) => r@.len() == head + docker_items_spec(lines_spec(out@)).len() && forall|i: int|
                    0 <= i < docker_items_spec(lines_spec(out@)).len() ==> is_prune_item(
                        #[trigger] r@[head + i],
                        docker_items_spec(lines_spec(out@))[i],
                    ),
                None => r@.len() == head,
            }
            &&& !running ==> r@.len() == head + 1 && item_is(r@[head], "/docker-start"@,
                "Docker not running \u{2014} press Enter to start & rescan"@, 0, SafetyTier::Moderate, Category::Caches,
                "press Enter to launch Docker and rescan"@, 0, ItemAction::Delete)
        },
{
    let mut items: Vec<ScanItem> = Vec::new();
    if !installed {
        return items;
    }
    match raw {
        Some((p, b)) => items.push(docker_raw_item(p, b)),
        None => {},
    }
    let ghost head = items@;
    if running {
        match df_out {
            Some(out) => {
                let mut more = docker_df_items(out);
                items.append(&mut more);
            },
            None => {},
        }
    } else {
        items.push(docker_start_item());
    }
    items
}

} // verus!
