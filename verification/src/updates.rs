//! New versions of the program, and whether to speak of them.

use vstd::prelude::*;

use crate::text;

verus! {

// ---------------------------------------------------------------------------
// Versions
// ---------------------------------------------------------------------------

/// A version number.
#[derive(Debug, Clone, PartialEq, Eq)]
pub struct Version {
    pub major: u64,
    pub minor: u64,
    pub patch: u64,
    pub pre: Vec<Identifier>,
}

/// A part of what names a pre-release.
#[derive(Debug, PartialEq, Eq)]
#[verifier::ext_equal]
pub enum Identifier<S = String> {
    Numeric(u64),
    Alpha(S),
}

impl Clone for Identifier {
    fn clone(&self) -> (r: Identifier)
        ensures
            r == *self,
    {
        match self {
            Identifier::Numeric(n) => Identifier::Numeric(*n),
            Identifier::Alpha(s) => Identifier::Alpha(s.clone()),
        }
    }
}

impl DeepView for Identifier {
    type V = Identifier<Seq<char>>;

    open spec fn deep_view(&self) -> Identifier<Seq<char>> {
        match *self {
            Identifier::Numeric(n) => Identifier::Numeric(n),
            Identifier::Alpha(s) => Identifier::Alpha(s@),
        }
    }
}

/// The mathematical value of a `Version`.
#[verifier::ext_equal]
pub struct VersionView {
    pub major: u64,
    pub minor: u64,
    pub patch: u64,
    pub pre: Seq<Identifier<Seq<char>>>,
}

impl DeepView for Version {
    type V = VersionView;

    open spec fn deep_view(&self) -> VersionView {
        VersionView {
            major: self.major,
            minor: self.minor,
            patch: self.patch,
            pre: self.pre.deep_view(),
        }
    }
}

/// How one thing stands to another.
#[derive(Debug, Clone, Copy, PartialEq, Eq, Structural)]
pub enum Rank {
    Before,
    Same,
    After,
}

impl Rank {
    pub open spec fn reverse(self) -> Rank {
        match self {
            Rank::Before => Rank::After,
            Rank::Same => Rank::Same,
            Rank::After => Rank::Before,
        }
    }

    /// This rank, unless it is `Same`: the next one decides.
    pub open spec fn or(self, next: Rank) -> Rank {
        match self {
            Rank::Same => next,
            _ => self,
        }
    }
}

pub open spec fn number_rank(a: int, b: int) -> Rank {
    if a < b {
        Rank::Before
    } else if a == b {
        Rank::Same
    } else {
        Rank::After
    }
}

pub open spec fn text_rank(a: Seq<char>, b: Seq<char>) -> Rank {
    if text::less(a, b) {
        Rank::Before
    } else if a == b {
        Rank::Same
    } else {
        Rank::After
    }
}

/// Numbers stand before words.
pub open spec fn identifier_rank(
    a: Identifier<Seq<char>>,
    b: Identifier<Seq<char>>,
) -> Rank {
    match (a, b) {
        (Identifier::Numeric(a), Identifier::Numeric(b)) => number_rank(a as int, b as int),
        (Identifier::Alpha(a), Identifier::Alpha(b)) => text_rank(a, b),
        (Identifier::Numeric(_), Identifier::Alpha(_)) => Rank::Before,
        (Identifier::Alpha(_), Identifier::Numeric(_)) => Rank::After,
    }
}

/// The first difference decides, and else the length.
pub open spec fn identifiers_rank(
    a: Seq<Identifier<Seq<char>>>,
    b: Seq<Identifier<Seq<char>>>,
) -> Rank
    decreases a.len(),
{
    if a.len() == 0 || b.len() == 0 {
        number_rank(a.len() as int, b.len() as int)
    } else {
        identifier_rank(a[0], b[0]).or(
            identifiers_rank(a.subrange(1, a.len() as int), b.subrange(1, b.len() as int)),
        )
    }
}

/// A release stands after its pre-releases.
pub open spec fn pre_release_rank(
    a: Seq<Identifier<Seq<char>>>,
    b: Seq<Identifier<Seq<char>>>,
) -> Rank {
    if a.len() == 0 && b.len() == 0 {
        Rank::Same
    } else if a.len() == 0 {
        Rank::After
    } else if b.len() == 0 {
        Rank::Before
    } else {
        identifiers_rank(a, b)
    }
}

/// How two versions stand to each other.
pub open spec fn version_rank(a: VersionView, b: VersionView) -> Rank {
    number_rank(a.major as int, b.major as int).or(
        number_rank(a.minor as int, b.minor as int).or(
            number_rank(a.patch as int, b.patch as int).or(pre_release_rank(a.pre, b.pre)),
        ),
    )
}

/// The part of a pre-release's name that `segment` writes.
pub open spec fn identifier_of(segment: Seq<char>) -> Option<Identifier<Seq<char>>> {
    if segment.len() == 0 {
        None
    } else if text::all_digits(segment) {
        match text::number(segment) {
            Some(n) => Some(Identifier::Numeric(n)),
            None => None,
        }
    } else {
        Some(Identifier::Alpha(segment))
    }
}

/// The parts of a pre-release's name, if each is one.
pub open spec fn identifiers_of(segments: Seq<Seq<char>>) -> Option<Seq<Identifier<Seq<char>>>>
    decreases segments.len(),
{
    if segments.len() == 0 {
        Some(seq![])
    } else {
        match (identifiers_of(segments.drop_last()), identifier_of(segments.last())) {
            (Some(before), Some(last)) => Some(before.push(last)),
            _ => None,
        }
    }
}

/// `s` up to its first `c`.
pub open spec fn before_first(s: Seq<char>, c: char) -> Seq<char> {
    match text::split_at_first(s, c) {
        Some((head, _)) => head,
        None => s,
    }
}

/// The version that `s` writes: three numbers with dots between them, perhaps a
/// hyphen and the name of a pre-release, and perhaps a plus sign and what is
/// not compared.
pub open spec fn version_of(s: Seq<char>) -> Option<VersionView> {
    let s = before_first(text::trimmed(s), '+');
    let (core, pre) = match text::split_at_first(s, '-') {
        Some((core, pre)) => (core, identifiers_of(text::pieces(pre, text::Cut::At('.')))),
        None => (s, Some(seq![])),
    };
    let parts = text::pieces(core, text::Cut::At('.'));
    if parts.len() == 3 {
        match (text::number(parts[0]), text::number(parts[1]), text::number(parts[2]), pre) {
            (Some(major), Some(minor), Some(patch), Some(pre)) => Some(
                VersionView { major, minor, patch, pre },
            ),
            _ => None,
        }
    } else {
        None
    }
}

/// Whether `latest` stands after `current`, if both are versions.
pub open spec fn newer(latest: Seq<char>, current: Seq<char>) -> Option<bool> {
    match (version_of(latest), version_of(current)) {
        (Some(latest), Some(current)) => Some(version_rank(latest, current) == Rank::After),
        _ => None,
    }
}

fn rank_numbers(a: u64, b: u64) -> (r: Rank)
    ensures
        r == number_rank(a as int, b as int),
{
    if a < b {
        Rank::Before
    } else if a == b {
        Rank::Same
    } else {
        Rank::After
    }
}

fn rank_texts(a: &str, b: &str) -> (r: Rank)
    ensures
        r == text_rank(a@, b@),
{
    if text::is_less(a, b) {
        Rank::Before
    } else if text::same(a, b) {
        Rank::Same
    } else {
        Rank::After
    }
}

fn rank_identifiers(a: &Identifier, b: &Identifier) -> (r: Rank)
    ensures
        r == identifier_rank(a.deep_view(), b.deep_view()),
{
    match (a, b) {
        (Identifier::Numeric(a), Identifier::Numeric(b)) => rank_numbers(*a, *b),
        (Identifier::Alpha(a), Identifier::Alpha(b)) => rank_texts(a.as_str(), b.as_str()),
        (Identifier::Numeric(_), Identifier::Alpha(_)) => Rank::Before,
        (Identifier::Alpha(_), Identifier::Numeric(_)) => Rank::After,
    }
}

/// How two pre-releases stand to each other; an empty name is the release.
pub fn compare_pre_release(left: &Vec<Identifier>, right: &Vec<Identifier>) -> (r: Rank)
    ensures
        r == pre_release_rank(left.deep_view(), right.deep_view()),
{
    if left.len() == 0 && right.len() == 0 {
        return Rank::Same;
    }
    if left.len() == 0 {
        return Rank::After;
    }
    if right.len() == 0 {
        return Rank::Before;
    }
    let ghost a = left.deep_view();
    let ghost b = right.deep_view();
    let mut i: usize = 0;
    proof {
        assert(a.skip(0) =~= a);
        assert(b.skip(0) =~= b);
    }
    while i < left.len() && i < right.len()
        invariant
            a == left.deep_view(),
            b == right.deep_view(),
            i <= left@.len(),
            i <= right@.len(),
            left@.len() > 0,
            right@.len() > 0,
            identifiers_rank(a, b) == identifiers_rank(a.skip(i as int), b.skip(i as int)),
        decreases left@.len() - i,
    {
        let ghost a1 = a.skip(i as int);
        let ghost b1 = b.skip(i as int);
        let rank = rank_identifiers(&left[i], &right[i]);
        proof {
            assert(a1[0] == left@[i as int].deep_view());
            assert(b1[0] == right@[i as int].deep_view());
            assert(a1.subrange(1, a1.len() as int) =~= a.skip(i + 1));
            assert(b1.subrange(1, b1.len() as int) =~= b.skip(i + 1));
        }
        if rank != Rank::Same {
            return rank;
        }
        i = i + 1;
    }
    proof {
        assert(a.skip(i as int).len() == a.len() - i);
        assert(b.skip(i as int).len() == b.len() - i);
    }
    if left.len() < right.len() {
        Rank::Before
    } else if left.len() == right.len() {
        Rank::Same
    } else {
        Rank::After
    }
}

impl Version {
    /// How this version stands to another.
    pub fn rank(&self, other: &Version) -> (r: Rank)
        ensures
            r == version_rank(self.deep_view(), other.deep_view()),
    {
        match rank_numbers(self.major, other.major) {
            Rank::Same => {},
            rank => return rank,
        }
        match rank_numbers(self.minor, other.minor) {
            Rank::Same => {},
            rank => return rank,
        }
        match rank_numbers(self.patch, other.patch) {
            Rank::Same => {},
            rank => return rank,
        }
        compare_pre_release(&self.pre, &other.pre)
    }
}

fn is_all_digits(s: &str) -> (r: bool)
    ensures
        r == text::all_digits(s@),
{
    let chars = text::chars_of(s);
    for i in 0..chars.len()
        invariant
            chars@ == s@,
            forall|j: int| 0 <= j < i ==> text::is_digit(#[trigger] s@[j]),
    {
        if !('0' <= chars[i] && chars[i] <= '9') {
            proof {
                assert(!text::is_digit(s@[i as int]));
            }
            return false;
        }
    }
    true
}

/// The part of a pre-release's name that `segment` writes.
pub fn parse_identifier(segment: &str) -> (r: Option<Identifier>)
    ensures
        r.deep_view() == identifier_of(segment@),
{
    if segment.is_empty() {
        return None;
    }
    if is_all_digits(segment) {
        match text::parse_number(segment) {
            Some(n) => Some(Identifier::Numeric(n)),
            None => None,
        }
    } else {
        Some(Identifier::Alpha(segment.to_owned()))
    }
}

proof fn lemma_identifiers_stop(segments: Seq<Seq<char>>, n: int)
    requires
        0 <= n <= segments.len(),
        identifiers_of(segments.take(n)) is None,
    ensures
        identifiers_of(segments) is None,
    decreases segments.len() - n,
{
    if n < segments.len() {
        assert(segments.take(n + 1).drop_last() =~= segments.take(n));
        lemma_identifiers_stop(segments, n + 1);
    } else {
        assert(segments.take(n) =~= segments);
    }
}

/// The view of an optional list of identifiers.
pub open spec fn identifiers_view(
    list: Option<Vec<Identifier>>,
) -> Option<Seq<Identifier<Seq<char>>>> {
    match list {
        Some(list) => Some(list.deep_view()),
        None => None,
    }
}

fn parse_identifiers(pre: &str) -> (r: Option<Vec<Identifier>>)
    ensures
        identifiers_view(r) == identifiers_of(text::pieces(pre@, text::Cut::At('.'))),
{
    let segments = text::split(pre, text::Cut::At('.'));
    let ghost all = text::views(segments@);
    let mut list: Vec<Identifier> = Vec::new();
    proof {
        assert(list.deep_view() =~= seq![]);
        assert(all.take(0) =~= Seq::<Seq<char>>::empty());
    }
    for i in 0..segments.len()
        invariant
            all == text::views(segments@),
            all == text::pieces(pre@, text::Cut::At('.')),
            identifiers_of(all.take(i as int)) == Some(list.deep_view()),
    {
        let ghost before = list.deep_view();
        proof {
            assert(all.take(i + 1).drop_last() =~= all.take(i as int));
            assert(all.take(i + 1).last() == segments@[i as int]@);
        }
        match parse_identifier(segments[i].as_str()) {
            Some(identifier) => {
                let ghost view = identifier.deep_view();
                list.push(identifier);
                proof {
                    assert(list.deep_view() =~= before.push(view));
                }
            },
            None => {
                proof {
                    lemma_identifiers_stop(all, i + 1);
                }
                return None;
            },
        }
    }
    proof {
        assert(all.take(all.len() as int) =~= all);
    }
    Some(list)
}

/// The version that `v` writes.
pub fn parse_version(v: &str) -> (r: Option<Version>)
    ensures
        r.deep_view() == version_of(v@),
{
    let trimmed = text::trim(v);
    let without_build = match text::split_once(trimmed, '+') {
        Some((head, _)) => head,
        None => trimmed,
    };
    let (core, pre) = match text::split_once(without_build, '-') {
        Some((core, pre)) => (core, parse_identifiers(pre)),
        None => {
            let none: Vec<Identifier> = Vec::new();
            proof {
                assert(none.deep_view() =~= seq![]);
            }
            (without_build, Some(none))
        },
    };
    let parts = text::split(core, text::Cut::At('.'));
    proof {
        assert(text::views(parts@).len() == parts@.len());
        assert forall|i: int| 0 <= i < parts@.len() implies #[trigger] text::views(parts@)[i]
            == parts@[i]@ by {}
    }
    if parts.len() != 3 {
        return None;
    }
    match (
        text::parse_number(parts[0].as_str()),
        text::parse_number(parts[1].as_str()),
        text::parse_number(parts[2].as_str()),
        pre,
    ) {
        (Some(major), Some(minor), Some(patch), Some(pre)) => Some(
            Version { major, minor, patch, pre },
        ),
        _ => None,
    }
}

/// Whether `latest` stands after `current`, if both are versions.
pub fn is_newer(latest: &str, current: &str) -> (r: Option<bool>)
    ensures
        r == newer(latest@, current@),
{
    match (parse_version(latest), parse_version(current)) {
        (Some(latest), Some(current)) => Some(latest.rank(&current) == Rank::After),
        _ => None,
    }
}

// ---------------------------------------------------------------------------
// Where a version is found
// ---------------------------------------------------------------------------

/// The version that a line of a cask names: `version "…"`.
pub open spec fn cask_line_version(line: Seq<char>) -> Option<Seq<char>> {
    match text::after_prefix(text::trimmed(line), "version \""@) {
        Some(rest) => if rest.len() > 0 && rest.last() == '"' {
            Some(rest.drop_last())
        } else {
            None
        },
        None => None,
    }
}

/// The version that the first such line names.
pub open spec fn cask_version(lines: Seq<Seq<char>>) -> Option<Seq<char>>
    decreases lines.len(),
{
    if lines.len() == 0 {
        None
    } else {
        match cask_line_version(lines[0]) {
            Some(version) => Some(version),
            None => cask_version(lines.subrange(1, lines.len() as int)),
        }
    }
}

fn read_cask_line(line: &str) -> (r: Option<String>)
    ensures
        r.deep_view() == cask_line_version(line@),
{
    match text::strip_prefix(text::trim(line), "version \"") {
        Some(rest) => {
            let n: usize = rest.unicode_len();
            if n > 0 && rest.get_char(n - 1) == '"' {
                proof {
                    assert(rest@.subrange(0, n - 1) =~= rest@.drop_last());
                }
                Some(rest.substring_char(0, n - 1).to_owned())
            } else {
                None
            }
        },
        None => None,
    }
}

/// The version that a Homebrew cask names.
pub fn extract_version_from_cask(cask_contents: &str) -> (r: Result<String, String>)
    ensures
        match cask_version(text::lines(cask_contents@)) {
            Some(version) => r matches Ok(v) && v@ == version,
            None => r matches Err(e) && e@ == "Failed to find version in Homebrew cask file"@,
        },
{
    let lines = text::split_lines(cask_contents);
    let ghost all = text::views(lines@);
    let mut i: usize = 0;
    proof {
        assert(all.skip(0) =~= all);
    }
    while i < lines.len()
        invariant
            all == text::views(lines@),
            all == text::lines(cask_contents@),
            i <= lines@.len(),
            cask_version(all) == cask_version(all.skip(i as int)),
        decreases lines@.len() - i,
    {
        proof {
            let rest = all.skip(i as int);
            assert(rest[0] == lines@[i as int]@);
            assert(rest.subrange(1, rest.len() as int) =~= all.skip(i + 1));
        }
        match read_cask_line(lines[i].as_str()) {
            Some(version) => return Ok(version),
            None => {},
        }
        i = i + 1;
    }
    Err("Failed to find version in Homebrew cask file".to_owned())
}

/// What of a tag names a version: the tag without `rust-v` or `v` before it.
pub open spec fn tag_version(tag: Seq<char>) -> Seq<char> {
    let tag = text::trimmed(tag);
    match text::after_prefix(tag, "rust-v"@) {
        Some(rest) => rest,
        None => match text::after_prefix(tag, "v"@) {
            Some(rest) => rest,
            None => tag,
        },
    }
}

/// The version that the tag of a release names; it begins with a digit.
pub fn extract_version_from_latest_tag(latest_tag_name: &str) -> (r: Result<String, String>)
    ensures
        ({
            let version = tag_version(latest_tag_name@);
            if version.len() > 0 && text::is_digit(version[0]) {
                r matches Ok(v) && v@ == version
            } else {
                r matches Err(e) && e@ == "Failed to parse latest tag name '"@
                    + latest_tag_name@ + "'"@
            }
        }),
{
    let trimmed = text::trim(latest_tag_name);
    let version = match text::strip_prefix(trimmed, "rust-v") {
        Some(rest) => rest,
        None => match text::strip_prefix(trimmed, "v") {
            Some(rest) => rest,
            None => trimmed,
        },
    };
    if version.unicode_len() > 0 {
        let first = version.get_char(0);
        if '0' <= first && first <= '9' {
            return Ok(version.to_owned());
        }
    }
    Err(text::concat3("Failed to parse latest tag name '", latest_tag_name, "'"))
}

// ---------------------------------------------------------------------------
// What is remembered
// ---------------------------------------------------------------------------

/// A moment: seconds since the start of 1970, and nanoseconds behind them.
#[derive(Debug, Clone, Copy, PartialEq, Eq, Structural)]
pub struct Moment {
    pub seconds: i64,
    pub nanoseconds: u32,
}

impl Moment {
    pub open spec fn nanos(self) -> int {
        self.seconds * 1_000_000_000 + self.nanoseconds
    }
}

/// Twenty hours, in nanoseconds.
pub open spec fn check_interval() -> int {
    72_000_000_000_000int
}

/// What is remembered about new versions.
#[derive(Debug, PartialEq, Eq)]
#[verifier::ext_equal]
pub struct VersionInfo<S = String> {
    pub latest_version: S,
    pub last_checked_at: Moment,
    pub dismissed_version: Option<S>,
}

impl DeepView for VersionInfo {
    type V = VersionInfo<Seq<char>>;

    open spec fn deep_view(&self) -> VersionInfo<Seq<char>> {
        VersionInfo {
            latest_version: self.latest_version@,
            last_checked_at: self.last_checked_at,
            dismissed_version: self.dismissed_version.deep_view(),
        }
    }
}

/// Whether it is time to look for a new version: nothing is remembered, or the
/// last look is more than twenty hours ago.
pub open spec fn check_is_due(info: Option<VersionInfo<Seq<char>>>, now: Moment) -> bool {
    match info {
        None => true,
        Some(info) => info.last_checked_at.nanos() < now.nanos() - check_interval(),
    }
}

/// The remembered version, if it stands after the current one.
pub open spec fn upgrade(
    info: Option<VersionInfo<Seq<char>>>,
    current: Seq<char>,
) -> Option<Seq<char>> {
    match info {
        Some(info) => if newer(info.latest_version, current) == Some(true) {
            Some(info.latest_version)
        } else {
            None
        },
        None => None,
    }
}

/// The remembered version, if it stands after the current one and was not
/// dismissed.
pub open spec fn shown_upgrade(
    info: Option<VersionInfo<Seq<char>>>,
    current: Seq<char>,
) -> Option<Seq<char>> {
    match upgrade(info, current) {
        Some(latest) => if info->0.dismissed_version == Some(latest) {
            None
        } else {
            Some(latest)
        },
        None => None,
    }
}

/// What is remembered after `version` was dismissed.
pub open spec fn with_dismissed(
    info: Option<VersionInfo<Seq<char>>>,
    version: Seq<char>,
) -> Option<VersionInfo<Seq<char>>> {
    match info {
        Some(info) => Some(VersionInfo { dismissed_version: Some(version), ..info }),
        None => None,
    }
}

/// What is remembered after a look that found `latest`.
pub open spec fn after_check(
    previous: Option<VersionInfo<Seq<char>>>,
    latest: Seq<char>,
    now: Moment,
) -> VersionInfo<Seq<char>> {
    VersionInfo {
        latest_version: latest,
        last_checked_at: now,
        dismissed_version: match previous {
            Some(previous) => previous.dismissed_version,
            None => None,
        },
    }
}

/// Whether to look for a new version now. Someone who does not want to hear of
/// new versions is left in peace.
pub fn should_check_for_update(wanted: bool, info: &Option<VersionInfo>, now: Moment) -> (r: bool)
    ensures
        r == (wanted && check_is_due(info.deep_view(), now)),
{
    if !wanted {
        return false;
    }
    match info {
        None => true,
        Some(info) => {
            let last: i128 = info.last_checked_at.seconds as i128 * 1_000_000_000
                + info.last_checked_at.nanoseconds as i128;
            let current: i128 = now.seconds as i128 * 1_000_000_000 + now.nanoseconds as i128;
            last < current - 72_000_000_000_000
        },
    }
}

/// The version to upgrade to, if there is one and it is wanted.
pub fn get_upgrade_version(wanted: bool, info: &Option<VersionInfo>, current: &str) -> (r: Option<
    String,
>)
    ensures
        r.deep_view() == (if wanted { upgrade(info.deep_view(), current@) } else { None }),
{
    if !wanted {
        return None;
    }
    match info {
        Some(info) => match is_newer(info.latest_version.as_str(), current) {
            Some(true) => Some(info.latest_version.clone()),
            _ => None,
        },
        None => None,
    }
}

/// The version to upgrade to, unless the user has dismissed it.
pub fn get_upgrade_version_for_popup(
    wanted: bool,
    info: &Option<VersionInfo>,
    current: &str,
) -> (r: Option<String>)
    ensures
        r.deep_view() == (if wanted { shown_upgrade(info.deep_view(), current@) } else { None }),
{
    match get_upgrade_version(wanted, info, current) {
        Some(latest) => match info {
            Some(info) => match &info.dismissed_version {
                Some(dismissed) => if text::same(dismissed.as_str(), latest.as_str()) {
                    None
                } else {
                    Some(latest)
                },
                None => Some(latest),
            },
            None => Some(latest),
        },
        None => None,
    }
}

/// What to remember after a look found `latest_version`; what the user has
/// dismissed stays dismissed.
pub fn checked_version_info(
    previous: Option<VersionInfo>,
    latest_version: String,
    now: Moment,
) -> (r: VersionInfo)
    ensures
        r.deep_view() == after_check(previous.deep_view(), latest_version@, now),
{
    let dismissed_version = match previous {
        Some(previous) => previous.dismissed_version,
        None => None,
    };
    VersionInfo { latest_version, last_checked_at: now, dismissed_version }
}

/// What to remember after the user dismissed `version`; nothing where nothing
/// was remembered.
pub fn dismiss_version(info: Option<VersionInfo>, version: &str) -> (r: Option<VersionInfo>)
    ensures
        r.deep_view() == with_dismissed(info.deep_view(), version@),
{
    match info {
        Some(info) => Some(
            VersionInfo {
                latest_version: info.latest_version,
                last_checked_at: info.last_checked_at,
                dismissed_version: Some(version.to_owned()),
            },
        ),
        None => None,
    }
}

// ---------------------------------------------------------------------------
// Laws
// ---------------------------------------------------------------------------

proof fn lemma_identifiers_rank_reverse(
    a: Seq<Identifier<Seq<char>>>,
    b: Seq<Identifier<Seq<char>>>,
)
    ensures
        identifiers_rank(a, b) == identifiers_rank(b, a).reverse(),
        identifiers_rank(a, b) == Rank::Same <==> a == b,
    decreases a.len(),
{
    if a.len() == 0 && b.len() == 0 {
        assert(a =~= b);
    }
    if a.len() > 0 && b.len() > 0 {
        let a1 = a.subrange(1, a.len() as int);
        let b1 = b.subrange(1, b.len() as int);
        lemma_identifiers_rank_reverse(a1, b1);
        match (a[0], b[0]) {
            (Identifier::Alpha(x), Identifier::Alpha(y)) => {
                text::law_less_is_an_order(x, y);
            },
            _ => {},
        }
        if identifiers_rank(a, b) == Rank::Same {
            assert(a =~= seq![a[0]] + a1);
            assert(b =~= seq![b[0]] + b1);
        }
    }
}

/// Of two versions that differ, one stands before the other, and the other
/// after it.
pub proof fn law_versions_are_ordered(a: VersionView, b: VersionView)
    ensures
        version_rank(a, b) == version_rank(b, a).reverse(),
        version_rank(a, b) == Rank::Same <==> a == b,
{
    lemma_identifiers_rank_reverse(a.pre, b.pre);
    if a.pre.len() == 0 && b.pre.len() == 0 {
        assert(a.pre =~= b.pre);
    }
}

proof fn lemma_identifier_before(
    a: Identifier<Seq<char>>,
    b: Identifier<Seq<char>>,
    c: Identifier<Seq<char>>,
)
    requires
        identifier_rank(a, b) == Rank::Before,
        identifier_rank(b, c) == Rank::Before,
    ensures
        identifier_rank(a, c) == Rank::Before,
{
    match (a, b, c) {
        (Identifier::Alpha(x), Identifier::Alpha(y), Identifier::Alpha(z)) => {
            text::law_less_is_an_order(x, y);
            text::law_less_is_an_order(y, z);
            text::law_less_is_an_order(x, z);
            text::lemma_less_transitive(x, y, z);
        },
        _ => {},
    }
}

proof fn lemma_identifiers_before(
    a: Seq<Identifier<Seq<char>>>,
    b: Seq<Identifier<Seq<char>>>,
    c: Seq<Identifier<Seq<char>>>,
)
    requires
        identifiers_rank(a, b) == Rank::Before,
        identifiers_rank(b, c) == Rank::Before,
    ensures
        identifiers_rank(a, c) == Rank::Before,
    decreases a.len(),
{
    if a.len() > 0 && b.len() > 0 && c.len() > 0 {
        let first = identifier_rank(a[0], b[0]);
        let second = identifier_rank(b[0], c[0]);
        if first == Rank::Before && second == Rank::Before {
            lemma_identifier_before(a[0], b[0], c[0]);
        } else if first == Rank::Same && second == Rank::Same {
            lemma_identifiers_before(
                a.subrange(1, a.len() as int),
                b.subrange(1, b.len() as int),
                c.subrange(1, c.len() as int),
            );
        }
    }
}

proof fn lemma_version_before(a: VersionView, b: VersionView, c: VersionView)
    requires
        version_rank(a, b) == Rank::Before,
        version_rank(b, c) == Rank::Before,
    ensures
        version_rank(a, c) == Rank::Before,
{
    if identifiers_rank(a.pre, b.pre) == Rank::Before && identifiers_rank(b.pre, c.pre)
        == Rank::Before {
        lemma_identifiers_before(a.pre, b.pre, c.pre);
    }
}

/// If one version stands to a second as that does to a third, the first stands so
/// to the third, too.
pub proof fn law_the_order_of_versions_carries_on(a: VersionView, b: VersionView, c: VersionView)
    requires
        version_rank(a, b) == version_rank(b, c),
    ensures
        version_rank(a, c) == version_rank(a, b),
{
    law_versions_are_ordered(a, b);
    law_versions_are_ordered(b, c);
    law_versions_are_ordered(a, c);
    match version_rank(a, b) {
        Rank::Before => lemma_version_before(a, b, c),
        Rank::Same => {},
        Rank::After => lemma_version_before(c, b, a),
    }
}

/// A pre-release is not newer than its release, and the release is newer than
/// it.
pub proof fn law_a_release_is_newer_than_its_pre_releases(
    release: VersionView,
    pre: Seq<Identifier<Seq<char>>>,
)
    requires
        release.pre.len() == 0,
        pre.len() > 0,
    ensures
        version_rank(VersionView { pre, ..release }, release) == Rank::Before,
        version_rank(release, VersionView { pre, ..release }) == Rank::After,
{
}

/// White space around a version makes no difference.
pub proof fn law_white_space_is_ignored(a: Seq<char>, b: Seq<char>)
    requires
        text::trimmed(a) == text::trimmed(b),
    ensures
        version_of(a) == version_of(b),
{
}

/// What stands before the first `c` is the same where a `c` follows.
proof fn lemma_before_first(s: Seq<char>, t: Seq<char>, c: char)
    requires
        s.is_prefix_of(t),
        s.len() < t.len(),
        t[s.len() as int] == c,
    ensures
        before_first(s, c) == before_first(t, c),
{
    if exists|i: int| 0 <= i < s.len() && s[i] == c {
        let n = lemma_first_of(s, c);
        text::lemma_first_index_at(s, c, n);
        assert forall|i: int| 0 <= i < n implies #[trigger] t[i] != c by {
            assert(t[i] == s[i]);
        }
        assert(t[n] == s[n]);
        text::lemma_first_index_at(t, c, n);
        assert(s.take(n) =~= t.take(n));
    } else {
        text::lemma_first_index_at(s, c, s.len() as int);
        assert forall|i: int| 0 <= i < s.len() implies #[trigger] t[i] != c by {
            assert(t[i] == s[i]);
        }
        text::lemma_first_index_at(t, c, s.len() as int);
        assert(t.take(s.len() as int) =~= s);
    }
}

proof fn lemma_first_of(s: Seq<char>, c: char) -> (n: int)
    requires
        exists|i: int| 0 <= i < s.len() && s[i] == c,
    ensures
        0 <= n < s.len(),
        s[n] == c,
        forall|i: int| 0 <= i < n ==> #[trigger] s[i] != c,
    decreases s.len(),
{
    let k = choose|i: int| 0 <= i < s.len() && s[i] == c;
    let t = s.take(k);
    if exists|i: int| 0 <= i < t.len() && t[i] == c {
        let n = lemma_first_of(t, c);
        assert(forall|i: int| 0 <= i < n ==> t[i] == s[i]);
        n
    } else {
        assert(forall|i: int| 0 <= i < k ==> t[i] == s[i]);
        k
    }
}

/// What stands behind a plus sign does not count.
pub proof fn law_what_stands_behind_a_plus_does_not_count(s: Seq<char>, build: Seq<char>)
    requires
        text::trimmed(s) == s,
    ensures
        version_of(s + seq!['+'] + build) == version_of(s),
{
    let all = s + seq!['+'] + build;
    assert(all[s.len() as int] == '+');
    if s.len() > 0 {
        text::lemma_trimmed_start(s);
        text::lemma_trimmed_end(text::trimmed_start(s));
        assert(all[0] == s[0]);
    }
    text::lemma_trimmed_start_at(all, 0);
    assert(all.skip(0) =~= all);
    let to = lemma_last_filled(all, s.len() as int);
    text::lemma_trimmed_end_at(all, to);
    let kept = all.take(to);
    assert(kept[s.len() as int] == '+');
    assert(s.is_prefix_of(kept)) by {
        assert(kept.subrange(0, s.len() as int) =~= s);
    }
    lemma_before_first(s, kept, '+');
}

proof fn lemma_last_filled(s: Seq<char>, k: int) -> (n: int)
    requires
        0 <= k < s.len(),
        !text::is_space(s[k]),
    ensures
        k < n <= s.len(),
        !text::is_space(s[n - 1]),
        forall|i: int| n <= i < s.len() ==> text::is_space(#[trigger] s[i]),
    decreases s.len() - k,
{
    if exists|i: int| k < i < s.len() && !text::is_space(#[trigger] s[i]) {
        let next = choose|i: int| k < i < s.len() && !text::is_space(#[trigger] s[i]);
        lemma_last_filled(s, next)
    } else {
        k + 1
    }
}

/// A version that was found in a tag is found again where it is read as a tag.
pub proof fn law_a_version_is_a_tag_of_its_own(tag: Seq<char>)
    requires
        tag_version(tag).len() > 0,
        text::is_digit(tag_version(tag)[0]),
    ensures
        tag_version(tag_version(tag)) == tag_version(tag),
{
    reveal_strlit("rust-v");
    reveal_strlit("v");
    let trimmed = text::trimmed(tag);
    let version = tag_version(tag);
    text::lemma_trimmed_start(tag);
    text::lemma_trimmed_end(text::trimmed_start(tag));
    assert(version.last() == trimmed.last());
    text::lemma_tight(version);
    assert("rust-v"@[0] == 'r');
    assert("v"@[0] == 'v');
    if "rust-v"@.is_prefix_of(version) {
        assert(version.subrange(0, 6)[0] == version[0]);
    }
    if "v"@.is_prefix_of(version) {
        assert(version.subrange(0, 1)[0] == version[0]);
    }
}

/// A version that was dismissed is not shown again, also after later looks that
/// find nothing newer.
pub proof fn law_dismissed_is_not_shown(
    info: VersionInfo<Seq<char>>,
    current: Seq<char>,
    now: Moment,
)
    ensures
        ({
            let dismissed = with_dismissed(Some(info), info.latest_version);
            let later = after_check(dismissed, info.latest_version, now);
            &&& shown_upgrade(dismissed, current) is None
            &&& shown_upgrade(Some(later), current) is None
        }),
{
}

/// A newer version than the dismissed one is shown.
pub proof fn law_a_later_version_is_shown(
    info: VersionInfo<Seq<char>>,
    latest: Seq<char>,
    current: Seq<char>,
    now: Moment,
)
    requires
        newer(latest, current) == Some(true),
        latest != info.latest_version,
    ensures
        ({
            let dismissed = with_dismissed(Some(info), info.latest_version);
            shown_upgrade(Some(after_check(dismissed, latest, now)), current) == Some(latest)
        }),
{
}

/// The first of the three numbers that differs decides, whatever stands behind it: the
/// version with the greater one stands after the other.
pub proof fn law_the_greater_number_decides(a: VersionView, b: VersionView)
    ensures
        a.major > b.major ==> version_rank(a, b) == Rank::After,
        a.major < b.major ==> version_rank(a, b) == Rank::Before,
        a.major == b.major && a.minor > b.minor ==> version_rank(a, b) == Rank::After,
        a.major == b.major && a.minor < b.minor ==> version_rank(a, b) == Rank::Before,
        a.major == b.major && a.minor == b.minor && a.patch > b.patch ==> version_rank(a, b)
            == Rank::After,
        a.major == b.major && a.minor == b.minor && a.patch < b.patch ==> version_rank(a, b)
            == Rank::Before,
{
}

/// Whether one part of a pre-release's name stands before another: numbers by their
/// value, words by their characters, and every number before every word.
pub open spec fn part_before(a: Identifier<Seq<char>>, b: Identifier<Seq<char>>) -> bool {
    ||| a matches Identifier::Numeric(m) && (b matches Identifier::Numeric(n) && m < n)
    ||| a is Numeric && b is Alpha
    ||| a matches Identifier::Alpha(s) && (b matches Identifier::Alpha(t) && text::less(s, t))
}

/// Of two pre-releases of one version the first part that differs decides; and the one
/// whose name goes on stands after the other.
pub proof fn law_the_first_part_decides(
    a: VersionView,
    b: VersionView,
    n: int,
)
    requires
        a.major == b.major,
        a.minor == b.minor,
        a.patch == b.patch,
        a.pre.len() > 0,
        0 <= n <= a.pre.len(),
        n < b.pre.len(),
        forall|i: int| 0 <= i < n ==> #[trigger] a.pre[i] == b.pre[i],
        n < a.pre.len() ==> part_before(a.pre[n], b.pre[n]),
    ensures
        version_rank(a, b) == Rank::Before,
        version_rank(b, a) == Rank::After,
{
    lemma_first_part(a.pre, b.pre, n);
    lemma_identifiers_rank_reverse(a.pre, b.pre);
    lemma_identifiers_rank_reverse(b.pre, a.pre);
}

proof fn lemma_first_part(
    a: Seq<Identifier<Seq<char>>>,
    b: Seq<Identifier<Seq<char>>>,
    n: int,
)
    requires
        0 <= n <= a.len(),
        n < b.len(),
        forall|i: int| 0 <= i < n ==> #[trigger] a[i] == b[i],
        n < a.len() ==> part_before(a[n], b[n]),
    ensures
        identifiers_rank(a, b) == Rank::Before,
    decreases n,
{
    if n > 0 {
        let a1 = a.subrange(1, a.len() as int);
        let b1 = b.subrange(1, b.len() as int);
        assert(a[0] == b[0]);
        match (a[0], b[0]) {
            (Identifier::Alpha(x), Identifier::Alpha(y)) => {
                text::law_less_is_an_order(x, y);
            },
            _ => {},
        }
        assert forall|i: int| 0 <= i < n - 1 implies #[trigger] a1[i] == b1[i] by {
            assert(a[i + 1] == b[i + 1]);
        }
        lemma_first_part(a1, b1, n - 1);
    }
}

/// How three numbers are written as a version.
pub open spec fn written(major: u64, minor: u64, patch: u64) -> Seq<char> {
    text::decimal(major as nat) + seq!['.'] + text::decimal(minor as nat) + seq!['.']
        + text::decimal(patch as nat)
}

proof fn lemma_written(major: u64, minor: u64, patch: u64)
    ensures
        ({
            let s = written(major, minor, patch);
            &&& s.len() > 0
            &&& forall|i: int| 0 <= i < s.len() ==> text::is_digit(#[trigger] s[i]) || s[i] == '.'
            &&& text::is_digit(s[0])
            &&& text::is_digit(s.last())
            &&& text::pieces(s, text::Cut::At('.')) == seq![
                text::decimal(major as nat),
                text::decimal(minor as nat),
                text::decimal(patch as nat),
            ]
        }),
{
    let a = text::decimal(major as nat);
    let b = text::decimal(minor as nat);
    let c = text::decimal(patch as nat);
    let parts = seq![a, b, c];
    let s = written(major, minor, patch);
    text::lemma_decimal(major as nat);
    text::lemma_decimal(minor as nat);
    text::lemma_decimal(patch as nat);
    assert(parts.drop_last() =~= seq![a, b]);
    assert(parts.drop_last().drop_last() =~= seq![a]);
    assert(seq![a, b].drop_last() =~= seq![a]);
    assert(text::joined(seq![a], seq!['.']) == a);
    assert(text::joined(seq![a, b], seq!['.']) =~= a + seq!['.'] + b);
    assert(text::joined(parts, seq!['.']) =~= s);
    assert forall|i: int, j: int| 0 <= i < parts.len() && 0 <= j < parts[i].len() implies
        #[trigger] parts[i][j] != '.' by {
        assert(text::is_digit(parts[i][j]));
    }
    text::law_cutting_undoes_joining(parts, '.');
    assert forall|i: int| 0 <= i < s.len() implies text::is_digit(#[trigger] s[i]) || s[i]
        == '.' by {
        if i < a.len() {
            assert(s[i] == a[i]);
        } else if i > a.len() && i < a.len() + 1 + b.len() {
            assert(s[i] == b[i - a.len() - 1]);
        } else if i > a.len() + 1 + b.len() {
            assert(s[i] == c[i - a.len() - b.len() - 2]);
        }
    }
    assert(s[0] == a[0]);
    assert(s.last() == c.last());
    assert(text::is_digit(a[0]));
    assert(text::is_digit(c[c.len() - 1]));
}

/// A version that was written is read again, number by number.
pub proof fn law_a_version_is_read_as_it_is_written(major: u64, minor: u64, patch: u64)
    ensures
        version_of(written(major, minor, patch)) == Some(
            VersionView { major, minor, patch, pre: seq![] },
        ),
{
    let s = written(major, minor, patch);
    lemma_written(major, minor, patch);
    text::lemma_tight(s);
    text::lemma_first_index_at(s, '+', s.len() as int);
    text::lemma_first_index_at(s, '-', s.len() as int);
    text::law_a_number_is_read_as_it_is_written(major);
    text::law_a_number_is_read_as_it_is_written(minor);
    text::law_a_number_is_read_as_it_is_written(patch);
}

/// A text is newer than another where both are versions and the first stands after the
/// second; where one is no version, nothing is said.
pub proof fn law_newer_is_what_stands_after(latest: Seq<char>, current: Seq<char>)
    ensures
        newer(latest, current) is None <==> version_of(latest) is None || version_of(
            current,
        ) is None,
        newer(latest, current) == Some(true) ==> newer(current, latest) == Some(false),
        version_of(latest) matches Some(a) && version_of(current) matches Some(b) && {
            ||| a.major > b.major
            ||| a.major == b.major && a.minor > b.minor
            ||| a.major == b.major && a.minor == b.minor && a.patch > b.patch
        } ==> newer(latest, current) == Some(true) && newer(current, latest) == Some(false),
{
    match (version_of(latest), version_of(current)) {
        (Some(a), Some(b)) => {
            law_versions_are_ordered(a, b);
            law_the_greater_number_decides(a, b);
            law_the_greater_number_decides(b, a);
        },
        _ => {},
    }
}

/// Of two versions of three numbers, the one with the greater first difference is the
/// newer one, as texts too.
pub proof fn law_upgrades_go_by_their_numbers(
    latest: (u64, u64, u64),
    current: (u64, u64, u64),
)
    ensures
        newer(written(latest.0, latest.1, latest.2), written(current.0, current.1, current.2))
            == Some(
            latest.0 > current.0 || latest.0 == current.0 && (latest.1 > current.1 || latest.1
                == current.1 && latest.2 > current.2),
        ),
{
    law_a_version_is_read_as_it_is_written(latest.0, latest.1, latest.2);
    law_a_version_is_read_as_it_is_written(current.0, current.1, current.2);
}

/// It is offered what is newer, and only that; nothing is offered where nothing is
/// remembered.
pub proof fn law_only_newer_versions_are_offered(
    info: VersionInfo<Seq<char>>,
    current: Seq<char>,
)
    ensures
        upgrade(None, current) is None,
        shown_upgrade(None, current) is None,
        upgrade(Some(info), current) is Some <==> newer(info.latest_version, current) == Some(true),
        upgrade(Some(info), current) matches Some(v) ==> v == info.latest_version,
        shown_upgrade(Some(info), current) is Some <==> newer(info.latest_version, current) == Some(
            true,
        ) && info.dismissed_version != Some(info.latest_version),
        shown_upgrade(Some(info), current) matches Some(v) ==> v == info.latest_version,
{
}

/// It is looked for a new version again after twenty hours and no sooner.
pub proof fn law_a_look_lasts_twenty_hours(
    info: VersionInfo<Seq<char>>,
    latest: Seq<char>,
    looked_at: Moment,
    now: Moment,
)
    ensures
        check_is_due(None, now),
        looked_at.nanoseconds == now.nanoseconds ==> (check_is_due(
            Some(after_check(Some(info), latest, looked_at)),
            now,
        ) <==> now.seconds - looked_at.seconds > 20 * 60 * 60),
        after_check(Some(info), latest, looked_at).latest_version == latest,
{
}

/// The version in a tag is what stands behind the mark of a release.
pub proof fn law_the_version_stands_behind_the_mark(version: Seq<char>)
    requires
        version.len() > 0,
        text::is_digit(version[0]),
        !text::is_space(version.last()),
    ensures
        tag_version("rust-v"@ + version) == version,
        tag_version("v"@ + version) == version,
        tag_version(version) == version,
{
    reveal_strlit("rust-v");
    reveal_strlit("v");
    let long = "rust-v"@ + version;
    let short = "v"@ + version;
    assert(long[0] == 'r' && long.last() == version.last());
    assert(short[0] == 'v' && short.last() == version.last());
    text::lemma_tight(long);
    text::lemma_tight(short);
    text::lemma_tight(version);
    assert(long.subrange(0, 6) =~= "rust-v"@);
    assert(short.subrange(0, 1) =~= "v"@);
    assert(long.skip(6) =~= version);
    assert(short.skip(1) =~= version);
    if "rust-v"@.is_prefix_of(short) {
        assert(short.subrange(0, 6)[0] == 'v');
        assert("rust-v"@[0] == 'r');
    }
    if "rust-v"@.is_prefix_of(version) {
        assert(version.subrange(0, 6)[0] == version[0]);
        assert("rust-v"@[0] == 'r');
    }
    if "v"@.is_prefix_of(version) {
        assert(version.subrange(0, 1)[0] == version[0]);
        assert("v"@[0] == 'v');
    }
}

/// How a part of a pre-release's name is written.
pub open spec fn written_part(part: Identifier<Seq<char>>) -> Seq<char> {
    match part {
        Identifier::Numeric(n) => text::decimal(n as nat),
        Identifier::Alpha(s) => s,
    }
}

/// Whether a part of a pre-release's name can be told from what stands around it.
pub open spec fn is_plain_part(part: Identifier<Seq<char>>) -> bool {
    part matches Identifier::Alpha(s) ==> s.len() > 0 && !text::all_digits(s) && forall|i: int|
        0 <= i < s.len() ==> !text::is_space(#[trigger] s[i]) && s[i] != '.' && s[i] != '+'
}

proof fn lemma_part(part: Identifier<Seq<char>>)
    requires
        is_plain_part(part),
    ensures
        identifier_of(written_part(part)) == Some(part),
        written_part(part).len() > 0,
        forall|i: int|
            0 <= i < written_part(part).len() ==> !text::is_space(#[trigger] written_part(part)[i])
                && written_part(part)[i] != '.' && written_part(part)[i] != '+',
{
    match part {
        Identifier::Numeric(n) => {
            text::lemma_decimal(n as nat);
            text::law_a_number_is_read_as_it_is_written(n);
            let s = text::decimal(n as nat);
            assert forall|i: int| 0 <= i < s.len() implies !text::is_space(#[trigger] s[i]) && s[i]
                != '.' && s[i] != '+' by {
                assert(text::is_digit(s[i]));
            }
        },
        Identifier::Alpha(_) => {},
    }
}

proof fn lemma_parts(pre: Seq<Identifier<Seq<char>>>)
    requires
        forall|i: int| 0 <= i < pre.len() ==> is_plain_part(#[trigger] pre[i]),
    ensures
        identifiers_of(Seq::new(pre.len(), |i: int| written_part(pre[i]))) == Some(pre),
    decreases pre.len(),
{
    let texts = Seq::new(pre.len(), |i: int| written_part(pre[i]));
    if pre.len() > 0 {
        let front = pre.drop_last();
        lemma_parts(front);
        lemma_part(pre[pre.len() - 1]);
        assert(texts.drop_last() =~= Seq::new(front.len(), |i: int| written_part(front[i])));
        assert(front.push(pre.last()) =~= pre);
    } else {
        assert(pre =~= seq![]);
    }
}

proof fn lemma_joined_chars(parts: Seq<Seq<char>>)
    requires
        parts.len() > 0,
        forall|i: int| 0 <= i < parts.len() ==> (#[trigger] parts[i]).len() > 0,
        forall|i: int, j: int|
            0 <= i < parts.len() && 0 <= j < parts[i].len() ==> !text::is_space(
                #[trigger] parts[i][j],
            ) && parts[i][j] != '+',
    ensures
        ({
            let s = text::joined(parts, seq!['.']);
            &&& s.len() > 0
            &&& forall|i: int|
                0 <= i < s.len() ==> !text::is_space(#[trigger] s[i]) && s[i] != '+'
        }),
    decreases parts.len(),
{
    let s = text::joined(parts, seq!['.']);
    if parts.len() == 1 {
        assert forall|i: int| 0 <= i < s.len() implies !text::is_space(#[trigger] s[i]) && s[i]
            != '+' by {
            assert(s[i] == parts[0][i]);
        }
    } else {
        let front = parts.drop_last();
        assert forall|i: int, j: int| 0 <= i < front.len() && 0 <= j < front[i].len() implies
            !text::is_space(#[trigger] front[i][j]) && front[i][j] != '+' by {
            assert(front[i][j] == parts[i][j]);
        }
        lemma_joined_chars(front);
        let head = text::joined(front, seq!['.']);
        let last = parts[parts.len() - 1];
        assert forall|i: int| 0 <= i < s.len() implies !text::is_space(#[trigger] s[i]) && s[i]
            != '+' by {
            if i < head.len() {
                assert(s[i] == head[i]);
            } else if i > head.len() {
                assert(s[i] == parts[parts.len() - 1][i - head.len() - 1]);
            }
        }
    }
}

/// A pre-release that was written is read again, part by part.
pub proof fn law_a_pre_release_is_read_as_it_is_written(
    major: u64,
    minor: u64,
    patch: u64,
    pre: Seq<Identifier<Seq<char>>>,
)
    requires
        pre.len() > 0,
        forall|i: int| 0 <= i < pre.len() ==> is_plain_part(#[trigger] pre[i]),
    ensures
        version_of(
            written(major, minor, patch) + seq!['-'] + text::joined(
                Seq::new(pre.len(), |i: int| written_part(pre[i])),
                seq!['.'],
            ),
        ) == Some(VersionView { major, minor, patch, pre }),
{
    let texts = Seq::new(pre.len(), |i: int| written_part(pre[i]));
    let core = written(major, minor, patch);
    let name = text::joined(texts, seq!['.']);
    let s = core + seq!['-'] + name;
    lemma_written(major, minor, patch);
    lemma_parts(pre);
    assert forall|i: int| 0 <= i < texts.len() implies (#[trigger] texts[i]).len() > 0 by {
        lemma_part(pre[i]);
    }
    assert forall|i: int, j: int| 0 <= i < texts.len() && 0 <= j < texts[i].len() implies
        !text::is_space(#[trigger] texts[i][j]) && texts[i][j] != '+' by {
        lemma_part(pre[i]);
        assert(texts[i][j] == written_part(pre[i])[j]);
    }
    assert forall|i: int, j: int| 0 <= i < texts.len() && 0 <= j < texts[i].len() implies
        #[trigger] texts[i][j] != '.' by {
        lemma_part(pre[i]);
        assert(texts[i][j] == written_part(pre[i])[j]);
    }
    lemma_joined_chars(texts);
    text::law_cutting_undoes_joining(texts, '.');
    assert(s[0] == core[0]);
    assert(s.last() == name[name.len() - 1]);
    text::lemma_tight(s);
    assert forall|i: int| 0 <= i < s.len() implies #[trigger] s[i] != '+' by {
        if i < core.len() {
            assert(s[i] == core[i]);
        } else if i > core.len() {
            assert(s[i] == name[i - core.len() - 1]);
        }
    }
    text::lemma_first_index_at(s, '+', s.len() as int);
    assert forall|i: int| 0 <= i < core.len() implies #[trigger] s[i] != '-' by {
        assert(s[i] == core[i]);
    }
    text::lemma_first_index_at(s, '-', core.len() as int);
    assert(s.take(core.len() as int) =~= core);
    assert(s.skip(core.len() as int + 1) =~= name);
    text::law_a_number_is_read_as_it_is_written(major);
    text::law_a_number_is_read_as_it_is_written(minor);
    text::law_a_number_is_read_as_it_is_written(patch);
}

/// The version of a cask stands between quotation marks on its first line of that kind.
pub proof fn law_the_version_of_a_cask_is_found(lines: Seq<Seq<char>>, version: Seq<char>, n: int)
    requires
        0 <= n < lines.len(),
        text::trimmed(lines[n]) == "version \""@ + version + "\""@,
        forall|i: int|
            0 <= i < n ==> !"version \""@.is_prefix_of(text::trimmed(#[trigger] lines[i])),
    ensures
        cask_version(lines) == Some(version),
    decreases n,
{
    let mark = "version \""@;
    reveal_strlit("\"");
    if n > 0 {
        let rest = lines.subrange(1, lines.len() as int);
        assert(rest[n - 1] == lines[n]);
        assert forall|i: int| 0 <= i < n - 1 implies !mark.is_prefix_of(
            text::trimmed(#[trigger] rest[i]),
        ) by {
            assert(rest[i] == lines[i + 1]);
        }
        law_the_version_of_a_cask_is_found(rest, version, n - 1);
    } else {
        let line = mark + version + "\""@;
        assert(mark.is_prefix_of(line));
        assert(line.skip(mark.len() as int) =~= version + "\""@);
        assert((version + "\""@).drop_last() =~= version);
    }
}

} // verus!
