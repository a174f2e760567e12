//! The text track format: line splitting, tokenizing and the syntax of each
//! road-building command. Numbers stay as the author wrote them; turning
//! them into geometry is left to the caller, which applies each command in
//! order and reports the deferred syntax error only once it gets there.
use vstd::prelude::*;
use crate::text::{
    chars_of, decimal, decimal_chars, equals_str, extend_chars, extend_str, is_whitespace,
    spec_is_whitespace, string_of, utf8_len_exceeds,
};
use vstd::utf8::encode_utf8;

verus! {

/// The character sequences held by a vector of character vectors.
pub open spec fn views(v: Seq<Vec<char>>) -> Seq<Seq<char>> {
    Seq::new(v.len(), |i: int| v[i]@)
}

// ---------------------------------------------------------------------------
// Tokenizing one line
// ---------------------------------------------------------------------------

/// The tokenizer's result once the end of the line, or an unquoted `#`, is
/// reached.
pub open spec fn tokens_at_end(
    tokens: Seq<Seq<char>>,
    token: Seq<char>,
    quoted: bool,
    has_token: bool,
) -> Result<Seq<Seq<char>>, Seq<char>> {
    if quoted {
        Err("Unclosed quotation mark"@)
    } else if has_token {
        Ok(tokens.push(token))
    } else {
        Ok(tokens)
    }
}

/// Tokenizing `line` from position `i`, with the tokens completed so far,
/// the token being built, whether a quotation is open and whether the
/// current token has started (a pair of quotes starts an empty token).
pub open spec fn tokenize_from(
    line: Seq<char>,
    i: int,
    tokens: Seq<Seq<char>>,
    token: Seq<char>,
    quoted: bool,
    has_token: bool,
) -> Result<Seq<Seq<char>>, Seq<char>>
    decreases line.len() - i,
{
    if i < 0 || i >= line.len() {
        tokens_at_end(tokens, token, quoted, has_token)
    } else {
        let c = line[i];
        if c == '#' && !quoted {
            tokens_at_end(tokens, token, quoted, has_token)
        } else if c == '"' {
            tokenize_from(line, i + 1, tokens, token, !quoted, true)
        } else if c == '\\' && quoted {
            if i + 1 >= line.len() {
                Err("Unfinished escape in quoted text"@)
            } else if line[i + 1] == '\\' || line[i + 1] == '"' {
                tokenize_from(line, i + 2, tokens, token.push(line[i + 1]), quoted, has_token)
            } else {
                Err("Only \\\\ and \\\" escapes are supported in quoted text"@)
            }
        } else if spec_is_whitespace(c) && !quoted {
            if has_token {
                tokenize_from(line, i + 1, tokens.push(token), seq![], quoted, false)
            } else {
                tokenize_from(line, i + 1, tokens, token, quoted, has_token)
            }
        } else {
            tokenize_from(line, i + 1, tokens, token.push(c), quoted, true)
        }
    }
}

/// The tokens of one line: words separated by white space, with `#`
/// starting a comment outside quotes, and double quotes grouping text
/// (where `\\` and `\"` are the only escapes), or the error message.
pub open spec fn tokenize_spec(line: Seq<char>) -> Result<Seq<Seq<char>>, Seq<char>> {
    tokenize_from(line, 0, seq![], seq![], false, false)
}

/// Splits one line into tokens.
pub fn tokenize(line: &Vec<char>) -> (r: Result<Vec<Vec<char>>, String>)
    ensures
        match r {
            Ok(tokens) => tokenize_spec(line@) == Ok::<Seq<Seq<char>>, Seq<char>>(
                views(tokens@),
            ),
            Err(e) => tokenize_spec(line@) == Err::<Seq<Seq<char>>, Seq<char>>(e@),
        },
{
    let mut tokens: Vec<Vec<char>> = Vec::new();
    let mut token: Vec<char> = Vec::new();
    let mut quoted = false;
    let mut has_token = false;
    let mut i: usize = 0;
    assert(views(tokens@) =~= Seq::<Seq<char>>::empty());
    while i < line.len()
        invariant_except_break
            i <= line.len(),
            tokenize_spec(line@) == tokenize_from(
                line@,
                i as int,
                views(tokens@),
                token@,
                quoted,
                has_token,
            ),
        ensures
            i <= line.len(),
            tokenize_spec(line@) == tokens_at_end(views(tokens@), token@, quoted, has_token),
        decreases line.len() - i,
    {
        let c = line[i];
        if c == '#' && !quoted {
            break;
        } else if c == '"' {
            quoted = !quoted;
            has_token = true;
            i += 1;
        } else if c == '\\' && quoted {
            if i + 1 >= line.len() {
                return Err(String::from_str("Unfinished escape in quoted text"));
            }
            let escaped = line[i + 1];
            if escaped == '\\' || escaped == '"' {
                token.push(escaped);
                i += 2;
            } else {
                return Err(
                    String::from_str("Only \\\\ and \\\" escapes are supported in quoted text"),
                );
            }
        } else if is_whitespace(c) && !quoted {
            if has_token {
                let ghost before = views(tokens@);
                let done = token;
                token = Vec::new();
                tokens.push(done);
                assert(views(tokens@) =~= before.push(done@));
                has_token = false;
            }
            i += 1;
        } else {
            token.push(c);
            has_token = true;
            i += 1;
        }
    }
    if quoted {
        return Err(String::from_str("Unclosed quotation mark"));
    }
    if has_token {
        let ghost before = views(tokens@);
        let ghost last = token@;
        tokens.push(token);
        assert(views(tokens@) =~= before.push(last));
    }
    Ok(tokens)
}


// ---------------------------------------------------------------------------
// Commands
// ---------------------------------------------------------------------------

/// Kind of a road segment, describing the segment that leaves a sample.
#[derive(Clone, Copy, Debug, PartialEq, Eq, Structural)]
pub enum RoadKind {
    Road,
    Bridge,
    Tunnel,
    Ramp,
    Gap,
}

/// Which road-building command a line holds.
#[derive(Clone, Copy, Debug, PartialEq, Eq, Structural)]
pub enum RoadShape {
    Straight,
    Bridge,
    Tunnel,
    Ramp,
    Gap,
    Left,
    Right,
}

/// One optional pair of a road command, in the order written.
#[derive(Debug)]
pub enum RoadSetting {
    Rise(String),
    Bank(String),
    Kind(RoadKind),
}

/// A road-building command. `amount` is the length, or the turn angle of
/// `left` and `right`, whose radius follows the word `radius`. `kind` is
/// the command's road kind after its options. `error` is the syntax error
/// found after the settings listed here; the numbers before it are checked
/// first, exactly as a reader going left to right meets them.
#[derive(Debug)]
pub struct RoadCommand {
    pub shape: RoadShape,
    pub amount: String,
    pub radius: Option<String>,
    pub settings: Vec<RoadSetting>,
    pub kind: RoadKind,
    pub error: Option<String>,
}

/// One command of a track file, with its numbers as written.
#[derive(Debug)]
pub enum Command {
    Name(String),
    Description(String),
    Start { x: String, y: String, z: String, heading: Option<String> },
    Width(String),
    Kind(RoadKind),
    Checkpoint,
    Finish,
    Close,
    Road(RoadCommand),
}

/// What the syntax of the earlier lines decides for the next one.
#[derive(Clone, Copy, Debug, PartialEq, Eq, Structural)]
pub struct ParserState {
    /// A `finish` or `close` has been read.
    pub ended: bool,
    /// A road-building command has been read.
    pub road_started: bool,
    /// The kind given by the last `kind` command.
    pub default_kind: RoadKind,
}

pub ghost enum SettingView {
    Rise(Seq<char>),
    Bank(Seq<char>),
    Kind(RoadKind),
}

pub ghost struct RoadView {
    pub shape: RoadShape,
    pub amount: Seq<char>,
    pub radius: Option<Seq<char>>,
    pub settings: Seq<SettingView>,
    pub kind: RoadKind,
    pub error: Option<Seq<char>>,
}

pub ghost enum CommandView {
    Name(Seq<char>),
    Description(Seq<char>),
    Start { x: Seq<char>, y: Seq<char>, z: Seq<char>, heading: Option<Seq<char>> },
    Width(Seq<char>),
    Kind(RoadKind),
    Checkpoint,
    Finish,
    Close,
    Road(RoadView),
}

pub open spec fn opt_view(o: Option<String>) -> Option<Seq<char>> {
    match o {
        Some(s) => Some(s@),
        None => None,
    }
}

impl View for RoadSetting {
    type V = SettingView;

    open spec fn view(&self) -> SettingView {
        match self {
            RoadSetting::Rise(v) => SettingView::Rise(v@),
            RoadSetting::Bank(v) => SettingView::Bank(v@),
            RoadSetting::Kind(k) => SettingView::Kind(*k),
        }
    }
}

pub open spec fn setting_views(v: Seq<RoadSetting>) -> Seq<SettingView> {
    Seq::new(v.len(), |i: int| v[i]@)
}

impl View for RoadCommand {
    type V = RoadView;

    open spec fn view(&self) -> RoadView {
        RoadView {
            shape: self.shape,
            amount: self.amount@,
            radius: opt_view(self.radius),
            settings: setting_views(self.settings@),
            kind: self.kind,
            error: opt_view(self.error),
        }
    }
}

impl View for Command {
    type V = CommandView;

    open spec fn view(&self) -> CommandView {
        match self {
            Command::Name(v) => CommandView::Name(v@),
            Command::Description(v) => CommandView::Description(v@),
            Command::Start { x, y, z, heading } => CommandView::Start {
                x: x@,
                y: y@,
                z: z@,
                heading: opt_view(*heading),
            },
            Command::Width(v) => CommandView::Width(v@),
            Command::Kind(k) => CommandView::Kind(*k),
            Command::Checkpoint => CommandView::Checkpoint,
            Command::Finish => CommandView::Finish,
            Command::Close => CommandView::Close,
            Command::Road(r) => CommandView::Road(r@),
        }
    }
}

/// `before`, then `word`, then `after`, as a string.
fn framed(before: &str, word: &Vec<char>, after: &str) -> (r: String)
    ensures
        r@ == before@ + word@ + after@,
{
    let mut m: Vec<char> = Vec::new();
    extend_str(&mut m, before);
    extend_chars(&mut m, word);
    extend_str(&mut m, after);
    assert(m@ =~= before@ + word@ + after@);
    string_of(&m)
}

/// The road kind a word names, or the error for an unknown word.
pub open spec fn kind_spec(t: Seq<char>) -> Result<RoadKind, Seq<char>> {
    if t == "road"@ {
        Ok(RoadKind::Road)
    } else if t == "bridge"@ {
        Ok(RoadKind::Bridge)
    } else if t == "tunnel"@ {
        Ok(RoadKind::Tunnel)
    } else if t == "ramp"@ {
        Ok(RoadKind::Ramp)
    } else if t == "gap"@ {
        Ok(RoadKind::Gap)
    } else {
        Err("Unknown road kind '"@ + t + "'; use road, bridge, tunnel, ramp or gap"@)
    }
}

/// Reads a road kind word.
pub fn parse_kind(t: &Vec<char>) -> (r: Result<RoadKind, String>)
    ensures
        match r {
            Ok(k) => kind_spec(t@) == Ok::<RoadKind, Seq<char>>(k),
            Err(e) => kind_spec(t@) == Err::<RoadKind, Seq<char>>(e@),
        },
{
    if equals_str(t, "road") {
        Ok(RoadKind::Road)
    } else if equals_str(t, "bridge") {
        Ok(RoadKind::Bridge)
    } else if equals_str(t, "tunnel") {
        Ok(RoadKind::Tunnel)
    } else if equals_str(t, "ramp") {
        Ok(RoadKind::Ramp)
    } else if equals_str(t, "gap") {
        Ok(RoadKind::Gap)
    } else {
        Err(framed("Unknown road kind '", t, "'; use road, bridge, tunnel, ramp or gap"))
    }
}

/// The error of a command given the wrong number of arguments.
pub open spec fn count_error(command: Seq<char>, expected: nat, received: nat) -> Seq<char> {
    "'"@ + command + "' expects "@ + decimal(expected) + " argument(s), received "@ + decimal(
        received,
    )
}

fn count_message(command: &Vec<char>, expected: usize, received: usize) -> (r: String)
    ensures
        r@ == count_error(command@, expected as nat, received as nat),
{
    let mut m: Vec<char> = Vec::new();
    extend_str(&mut m, "'");
    extend_chars(&mut m, command);
    extend_str(&mut m, "' expects ");
    let e = decimal_chars(expected as u128);
    extend_chars(&mut m, &e);
    extend_str(&mut m, " argument(s), received ");
    let g = decimal_chars(received as u128);
    extend_chars(&mut m, &g);
    assert(m@ =~= count_error(command@, expected as nat, received as nat));
    string_of(&m)
}

/// Words joined by single spaces.
pub open spec fn join_words(words: Seq<Seq<char>>) -> Seq<char>
    decreases words.len(),
{
    if words.len() == 0 {
        seq![]
    } else if words.len() == 1 {
        words[0]
    } else {
        join_words(words.drop_last()) + seq![' '] + words.last()
    }
}

fn join_from(words: &Vec<Vec<char>>, first: usize) -> (r: Vec<char>)
    requires
        first <= words.len(),
    ensures
        r@ == join_words(views(words@).skip(first as int)),
{
    let ghost all = views(words@).skip(first as int);
    let mut out: Vec<char> = Vec::new();
    let mut i: usize = first;
    assert(all.take(0) =~= Seq::<Seq<char>>::empty());
    while i < words.len()
        invariant
            first <= i <= words.len(),
            all == views(words@).skip(first as int),
            out@ == join_words(all.take(i - first)),
        decreases words.len() - i,
    {
        let ghost prefix = all.take(i - first);
        assert(all.take(i - first + 1).drop_last() =~= prefix);
        assert(all.take(i - first + 1).last() == words@[i as int]@);
        if i > first {
            out.push(' ');
        }
        extend_chars(&mut out, &words[i]);
        if i == first {
            assert(out@ =~= words@[i as int]@);
        }
        i += 1;
    }
    assert(all.take(i - first) =~= all);
    out
}

/// The shape named by a road-building command word.
pub open spec fn shape_spec(cmd: Seq<char>) -> Option<RoadShape> {
    if cmd == "straight"@ {
        Some(RoadShape::Straight)
    } else if cmd == "bridge"@ {
        Some(RoadShape::Bridge)
    } else if cmd == "tunnel"@ {
        Some(RoadShape::Tunnel)
    } else if cmd == "ramp"@ {
        Some(RoadShape::Ramp)
    } else if cmd == "gap"@ {
        Some(RoadShape::Gap)
    } else if cmd == "left"@ {
        Some(RoadShape::Left)
    } else if cmd == "right"@ {
        Some(RoadShape::Right)
    } else {
        None
    }
}

fn shape_of(cmd: &Vec<char>) -> (r: Option<RoadShape>)
    ensures
        r == shape_spec(cmd@),
{
    if equals_str(cmd, "straight") {
        Some(RoadShape::Straight)
    } else if equals_str(cmd, "bridge") {
        Some(RoadShape::Bridge)
    } else if equals_str(cmd, "tunnel") {
        Some(RoadShape::Tunnel)
    } else if equals_str(cmd, "ramp") {
        Some(RoadShape::Ramp)
    } else if equals_str(cmd, "gap") {
        Some(RoadShape::Gap)
    } else if equals_str(cmd, "left") {
        Some(RoadShape::Left)
    } else if equals_str(cmd, "right") {
        Some(RoadShape::Right)
    } else {
        None
    }
}

/// The kind a road command starts with: its own for bridges, tunnels,
/// ramps and gaps, and the current default for the others.
pub open spec fn base_kind(shape: RoadShape, default_kind: RoadKind) -> RoadKind {
    match shape {
        RoadShape::Bridge => RoadKind::Bridge,
        RoadShape::Tunnel => RoadKind::Tunnel,
        RoadShape::Ramp => RoadKind::Ramp,
        RoadShape::Gap => RoadKind::Gap,
        _ => default_kind,
    }
}

/// The options of a road command read from pair `p` on: the settings, the
/// resulting kind, and the first error, if any.
pub open spec fn options_from(
    opts: Seq<Seq<char>>,
    p: int,
    settings: Seq<SettingView>,
    kind: RoadKind,
    seen_rise: bool,
    seen_bank: bool,
    seen_kind: bool,
) -> (Seq<SettingView>, RoadKind, Option<Seq<char>>)
    decreases opts.len() - 2 * p,
{
    if p < 0 || 2 * p + 1 >= opts.len() {
        (settings, kind, None)
    } else {
        let name = opts[2 * p];
        let value = opts[2 * p + 1];
        if name == "rise"@ {
            if seen_rise {
                (settings, kind, Some("Duplicate '"@ + name + "' option"@))
            } else {
                options_from(
                    opts,
                    p + 1,
                    settings.push(SettingView::Rise(value)),
                    kind,
                    true,
                    seen_bank,
                    seen_kind,
                )
            }
        } else if name == "bank"@ {
            if seen_bank {
                (settings, kind, Some("Duplicate '"@ + name + "' option"@))
            } else {
                options_from(
                    opts,
                    p + 1,
                    settings.push(SettingView::Bank(value)),
                    kind,
                    seen_rise,
                    true,
                    seen_kind,
                )
            }
        } else if name == "kind"@ {
            if seen_kind {
                (settings, kind, Some("Duplicate '"@ + name + "' option"@))
            } else {
                match kind_spec(value) {
                    Ok(k) => options_from(
                        opts,
                        p + 1,
                        settings.push(SettingView::Kind(k)),
                        k,
                        seen_rise,
                        seen_bank,
                        true,
                    ),
                    Err(e) => (settings, kind, Some(e)),
                }
            }
        } else {
            (settings, kind, Some("Unknown road option '"@ + name + "'"@))
        }
    }
}

/// The options of a road command: an even number of words read as
/// `rise`, `bank` and `kind` pairs, each at most once.
pub open spec fn options_spec(opts: Seq<Seq<char>>, kind: RoadKind) -> (
    Seq<SettingView>,
    RoadKind,
    Option<Seq<char>>,
) {
    if opts.len() % 2 == 1 {
        (
            seq![],
            kind,
            Some("Road options must be pairs: rise <metres>, bank <degrees>, kind <type>"@),
        )
    } else {
        options_from(opts, 0, seq![], kind, false, false, false)
    }
}

/// The syntax of a road-building command with the given arguments.
pub open spec fn road_spec(
    shape: RoadShape,
    cmd: Seq<char>,
    args: Seq<Seq<char>>,
    default_kind: RoadKind,
) -> Result<RoadView, Seq<char>> {
    let turn = shape == RoadShape::Left || shape == RoadShape::Right;
    if args.len() == 0 {
        Err("'"@ + cmd + "' requires a length or turn angle"@)
    } else if turn && (args.len() < 3 || args[1] != "radius"@) {
        Err(
            "Usage: "@ + cmd
                + " <angle_degrees> radius <metres> [rise <metres>] [bank <degrees>] [kind <type>]"@,
        )
    } else {
        let first = if turn {
            3int
        } else {
            1int
        };
        let (settings, kind, error) = options_spec(
            args.skip(first),
            base_kind(shape, default_kind),
        );
        Ok(
            RoadView {
                shape,
                amount: args[0],
                radius: if turn {
                    Some(args[2])
                } else {
                    None
                },
                settings,
                kind,
                error,
            },
        )
    }
}

fn road_options(
    tokens: &Vec<Vec<char>>,
    first: usize,
    start_kind: RoadKind,
) -> (r: (Vec<RoadSetting>, RoadKind, Option<String>))
    requires
        first <= tokens.len(),
    ensures
        (setting_views(r.0@), r.1, opt_view(r.2)) == options_spec(
            views(tokens@).skip(first as int),
            start_kind,
        ),
{
    let ghost opts = views(tokens@).skip(first as int);
    let count = tokens.len() - first;
    let mut settings: Vec<RoadSetting> = Vec::new();
    if count % 2 == 1 {
        assert(setting_views(settings@) =~= Seq::<SettingView>::empty());
        return (
            settings,
            start_kind,
            Some(
                String::from_str(
                    "Road options must be pairs: rise <metres>, bank <degrees>, kind <type>",
                ),
            ),
        );
    }
    let mut kind = start_kind;
    let mut seen_rise = false;
    let mut seen_bank = false;
    let mut seen_kind = false;
    let mut p: usize = 0;
    assert(setting_views(settings@) =~= Seq::<SettingView>::empty());
    while 2 * p + 1 < count
        invariant
            first <= tokens.len(),
            count == tokens.len() - first,
            count % 2 == 0,
            2 * p <= count,
            opts == views(tokens@).skip(first as int),
            options_spec(opts, start_kind) == options_from(
                opts,
                p as int,
                setting_views(settings@),
                kind,
                seen_rise,
                seen_bank,
                seen_kind,
            ),
        decreases count - 2 * p,
    {
        let name = &tokens[first + 2 * p];
        let value = &tokens[first + 2 * p + 1];
        assert(opts[2 * p as int] == name@);
        assert(opts[2 * p + 1] == value@);
        let ghost before = setting_views(settings@);
        if equals_str(name, "rise") {
            if seen_rise {
                return (settings, kind, Some(framed("Duplicate '", name, "' option")));
            }
            settings.push(RoadSetting::Rise(string_of(value)));
            seen_rise = true;
        } else if equals_str(name, "bank") {
            if seen_bank {
                return (settings, kind, Some(framed("Duplicate '", name, "' option")));
            }
            settings.push(RoadSetting::Bank(string_of(value)));
            seen_bank = true;
        } else if equals_str(name, "kind") {
            if seen_kind {
                return (settings, kind, Some(framed("Duplicate '", name, "' option")));
            }
            match parse_kind(value) {
                Ok(k) => {
                    settings.push(RoadSetting::Kind(k));
                    kind = k;
                    seen_kind = true;
                },
                Err(e) => {
                    return (settings, kind, Some(e));
                },
            }
        } else {
            return (settings, kind, Some(framed("Unknown road option '", name, "'")));
        }
        assert(setting_views(settings@) =~= before.push(settings@.last()@));
        p += 1;
    }
    (settings, kind, None)
}


fn road_command(
    shape: RoadShape,
    tokens: &Vec<Vec<char>>,
    default_kind: RoadKind,
) -> (r: Result<RoadCommand, String>)
    requires
        tokens.len() >= 1,
    ensures
        match r {
            Ok(c) => road_spec(shape, tokens@[0]@, views(tokens@).skip(1), default_kind) == Ok::<
                RoadView,
                Seq<char>,
            >(c@),
            Err(e) => road_spec(shape, tokens@[0]@, views(tokens@).skip(1), default_kind) == Err::<
                RoadView,
                Seq<char>,
            >(e@),
        },
{
    let ghost args = views(tokens@).skip(1);
    let cmd = &tokens[0];
    let turn = shape == RoadShape::Left || shape == RoadShape::Right;
    if tokens.len() == 1 {
        return Err(framed("'", cmd, "' requires a length or turn angle"));
    }
    if turn {
        let usage = tokens.len() < 4 || !equals_str(&tokens[2], "radius");
        if tokens.len() >= 4 {
            assert(args[1] == tokens@[2]@);
        }
        if usage {
            return Err(
                framed(
                    "Usage: ",
                    cmd,
                    " <angle_degrees> radius <metres> [rise <metres>] [bank <degrees>] [kind <type>]",
                ),
            );
        }
    }
    let first: usize = if turn {
        4
    } else {
        2
    };
    let start_kind = match shape {
        RoadShape::Bridge => RoadKind::Bridge,
        RoadShape::Tunnel => RoadKind::Tunnel,
        RoadShape::Ramp => RoadKind::Ramp,
        RoadShape::Gap => RoadKind::Gap,
        _ => default_kind,
    };
    let (settings, kind, error) = road_options(tokens, first, start_kind);
    assert(views(tokens@).skip(first as int) =~= args.skip(first - 1));
    let amount = string_of(&tokens[1]);
    let radius = if turn {
        Some(string_of(&tokens[3]))
    } else {
        None
    };
    Ok(RoadCommand { shape, amount, radius, settings, kind, error })
}

/// The syntax of one non-empty line of tokens, given what earlier lines
/// decided.
pub open spec fn command_spec(st: ParserState, tokens: Seq<Seq<char>>) -> Result<
    CommandView,
    Seq<char>,
> {
    let cmd = tokens[0];
    let args = tokens.skip(1);
    if st.ended {
        Err("No commands are allowed after 'finish' or 'close'"@)
    } else if cmd == "name"@ || cmd == "description"@ {
        if args.len() == 0 {
            Err("'"@ + cmd + "' requires text"@)
        } else if encode_utf8(join_words(args)).len() > 500 {
            Err("'"@ + cmd + "' text must be 500 bytes or fewer"@)
        } else if cmd == "name"@ {
            Ok(CommandView::Name(join_words(args)))
        } else {
            Ok(CommandView::Description(join_words(args)))
        }
    } else if cmd == "start"@ {
        if st.road_started {
            Err("'start' must appear before the first road command"@)
        } else if args.len() != 3 && args.len() != 4 {
            Err("Usage: start <x> <y> <z> [heading_degrees]"@)
        } else {
            Ok(
                CommandView::Start {
                    x: args[0],
                    y: args[1],
                    z: args[2],
                    heading: if args.len() == 4 {
                        Some(args[3])
                    } else {
                        None
                    },
                },
            )
        }
    } else if cmd == "width"@ {
        if args.len() != 1 {
            Err(count_error(cmd, 1, args.len()))
        } else {
            Ok(CommandView::Width(args[0]))
        }
    } else if cmd == "kind"@ {
        if args.len() != 1 {
            Err(count_error(cmd, 1, args.len()))
        } else {
            match kind_spec(args[0]) {
                Ok(k) => Ok(CommandView::Kind(k)),
                Err(e) => Err(e),
            }
        }
    } else if cmd == "checkpoint"@ || cmd == "finish"@ || cmd == "close"@ {
        if args.len() != 0 {
            Err(count_error(cmd, 0, args.len()))
        } else if cmd == "checkpoint"@ {
            Ok(CommandView::Checkpoint)
        } else if cmd == "finish"@ {
            Ok(CommandView::Finish)
        } else {
            Ok(CommandView::Close)
        }
    } else {
        match shape_spec(cmd) {
            Some(shape) => match road_spec(shape, cmd, args, st.default_kind) {
                Ok(r) => Ok(CommandView::Road(r)),
                Err(e) => Err(e),
            },
            None => Err(
                "Unknown command '"@ + cmd
                    + "'. Expected straight, left, right, bridge, tunnel, ramp, gap, width, kind, checkpoint, start, name, description, finish or close"@,
            ),
        }
    }
}

/// The parser state after a command has been accepted.
pub open spec fn advance_spec(st: ParserState, c: CommandView) -> ParserState {
    match c {
        CommandView::Kind(k) => ParserState { default_kind: k, ..st },
        CommandView::Finish => ParserState { ended: true, ..st },
        CommandView::Close => ParserState { ended: true, ..st },
        CommandView::Road(_) => ParserState { road_started: true, ..st },
        _ => st,
    }
}

impl ParserState {
    /// The state before the first line.
    pub fn new() -> (r: ParserState)
        ensures
            r == (ParserState { ended: false, road_started: false, default_kind: RoadKind::Road }),
    {
        ParserState { ended: false, road_started: false, default_kind: RoadKind::Road }
    }

    /// Reads the syntax of one non-empty line of tokens.
    pub fn command(&self, tokens: &Vec<Vec<char>>) -> (r: Result<Command, String>)
        requires
            tokens.len() >= 1,
        ensures
            match r {
                Ok(c) => command_spec(*self, views(tokens@)) == Ok::<CommandView, Seq<char>>(c@),
                Err(e) => command_spec(*self, views(tokens@)) == Err::<CommandView, Seq<char>>(
                    e@,
                ),
            },
    {
        let ghost toks = views(tokens@);
        let ghost args = toks.skip(1);
        let cmd = &tokens[0];
        let n = tokens.len() - 1;
        assert(args.len() == n);
        if self.ended {
            return Err(String::from_str("No commands are allowed after 'finish' or 'close'"));
        }
        if equals_str(cmd, "name") || equals_str(cmd, "description") {
            if n == 0 {
                return Err(framed("'", cmd, "' requires text"));
            }
            let joined = join_from(tokens, 1);
            let value = string_of(&joined);
            assert(views(tokens@).skip(1) == args);
            if utf8_len_exceeds(&joined, 500) {
                return Err(framed("'", cmd, "' text must be 500 bytes or fewer"));
            }
            if equals_str(cmd, "name") {
                return Ok(Command::Name(value));
            } else {
                return Ok(Command::Description(value));
            }
        }
        if equals_str(cmd, "start") {
            if self.road_started {
                return Err(String::from_str("'start' must appear before the first road command"));
            }
            if n != 3 && n != 4 {
                return Err(String::from_str("Usage: start <x> <y> <z> [heading_degrees]"));
            }
            let heading = if n == 4 {
                Some(string_of(&tokens[4]))
            } else {
                None
            };
            return Ok(
                Command::Start {
                    x: string_of(&tokens[1]),
                    y: string_of(&tokens[2]),
                    z: string_of(&tokens[3]),
                    heading,
                },
            );
        }
        if equals_str(cmd, "width") {
            if n != 1 {
                return Err(count_message(cmd, 1, n));
            }
            return Ok(Command::Width(string_of(&tokens[1])));
        }
        if equals_str(cmd, "kind") {
            if n != 1 {
                return Err(count_message(cmd, 1, n));
            }
            return match parse_kind(&tokens[1]) {
                Ok(k) => Ok(Command::Kind(k)),
                Err(e) => Err(e),
            };
        }
        let checkpoint = equals_str(cmd, "checkpoint");
        let finish = equals_str(cmd, "finish");
        let close = equals_str(cmd, "close");
        if checkpoint || finish || close {
            if n != 0 {
                return Err(count_message(cmd, 0, n));
            }
            if checkpoint {
                return Ok(Command::Checkpoint);
            } else if finish {
                return Ok(Command::Finish);
            } else {
                return Ok(Command::Close);
            }
        }
        match shape_of(cmd) {
            Some(shape) => match road_command(shape, tokens, self.default_kind) {
                Ok(r) => Ok(Command::Road(r)),
                Err(e) => Err(e),
            },
            None => Err(
                framed(
                    "Unknown command '",
                    cmd,
                    "'. Expected straight, left, right, bridge, tunnel, ramp, gap, width, kind, checkpoint, start, name, description, finish or close",
                ),
            ),
        }
    }

    /// The state after `c` has been accepted.
    pub fn advance(&self, c: &Command) -> (r: ParserState)
        ensures
            r == advance_spec(*self, c@),
    {
        match c {
            Command::Kind(k) => ParserState { default_kind: *k, ..*self },
            Command::Finish => ParserState { ended: true, ..*self },
            Command::Close => ParserState { ended: true, ..*self },
            Command::Road(_) => ParserState { road_started: true, ..*self },
            _ => *self,
        }
    }
}


// ---------------------------------------------------------------------------
// Lines and whole files
// ---------------------------------------------------------------------------

/// A line without the carriage return of a `\r\n` ending.
pub open spec fn strip_cr(seg: Seq<char>) -> Seq<char> {
    if seg.len() > 0 && seg.last() == '\r' {
        seg.drop_last()
    } else {
        seg
    }
}

/// The lines of `text` from position `i`, where the current line began at
/// `start` (as `str::lines` splits them: at `\n` or `\r\n`, the final line
/// ending being optional).
pub open spec fn lines_from(text: Seq<char>, start: int, i: int, acc: Seq<Seq<char>>) -> Seq<
    Seq<char>,
>
    decreases text.len() - i,
{
    if i < start || i < 0 || i >= text.len() {
        if 0 <= start < text.len() {
            acc.push(text.subrange(start, text.len() as int))
        } else {
            acc
        }
    } else if text[i] == '\n' {
        lines_from(text, i + 1, i + 1, acc.push(strip_cr(text.subrange(start, i))))
    } else {
        lines_from(text, start, i + 1, acc)
    }
}

/// The lines of a text.
pub open spec fn lines_spec(text: Seq<char>) -> Seq<Seq<char>> {
    lines_from(text, 0, 0, seq![])
}

fn copy_range(text: &Vec<char>, from: usize, to: usize) -> (r: Vec<char>)
    requires
        from <= to <= text.len(),
    ensures
        r@ == text@.subrange(from as int, to as int),
{
    let mut out: Vec<char> = Vec::new();
    let mut j = from;
    while j < to
        invariant
            from <= j <= to <= text.len(),
            out@ == text@.subrange(from as int, j as int),
        decreases to - j,
    {
        out.push(text[j]);
        assert(text@.subrange(from as int, j + 1) =~= text@.subrange(from as int, j as int).push(
            text@[j as int],
        ));
        j += 1;
    }
    out
}

/// Splits a text into lines.
pub fn split_lines(text: &Vec<char>) -> (r: Vec<Vec<char>>)
    ensures
        views(r@) == lines_spec(text@),
{
    let mut out: Vec<Vec<char>> = Vec::new();
    let mut start: usize = 0;
    let mut i: usize = 0;
    assert(views(out@) =~= Seq::<Seq<char>>::empty());
    while i < text.len()
        invariant
            start <= i <= text.len(),
            lines_spec(text@) == lines_from(text@, start as int, i as int, views(out@)),
        decreases text.len() - i,
    {
        if text[i] == '\n' {
            let mut end = i;
            if end > start && text[end - 1] == '\r' {
                end = end - 1;
            }
            let seg = copy_range(text, start, end);
            assert(seg@ == strip_cr(text@.subrange(start as int, i as int)));
            let ghost before = views(out@);
            out.push(seg);
            assert(views(out@) =~= before.push(seg@));
            start = i + 1;
        }
        i += 1;
    }
    if start < text.len() {
        let seg = copy_range(text, start, text.len());
        let ghost before = views(out@);
        out.push(seg);
        assert(views(out@) =~= before.push(seg@));
    }
    out
}

/// A command and the number of the line that holds it.
#[derive(Debug)]
pub struct ScriptLine {
    pub line: usize,
    pub command: Command,
}

/// The syntax of a whole track file: its commands in order, and the first
/// syntax error after them, if any.
#[derive(Debug)]
pub struct Script {
    pub commands: Vec<ScriptLine>,
    pub error: Option<String>,
}

pub ghost struct ScriptView {
    pub commands: Seq<(nat, CommandView)>,
    pub error: Option<Seq<char>>,
}

impl View for ScriptLine {
    type V = (nat, CommandView);

    open spec fn view(&self) -> (nat, CommandView) {
        (self.line as nat, self.command@)
    }
}

pub open spec fn line_views(v: Seq<ScriptLine>) -> Seq<(nat, CommandView)> {
    Seq::new(v.len(), |i: int| v[i]@)
}

impl View for Script {
    type V = ScriptView;

    open spec fn view(&self) -> ScriptView {
        ScriptView { commands: line_views(self.commands@), error: opt_view(self.error) }
    }
}

/// An error message located at line `n`.
pub open spec fn line_error(n: nat, e: Seq<char>) -> Seq<char> {
    "Line "@ + decimal(n) + ": "@ + e
}

/// The parser state before the first line.
pub open spec fn initial_state() -> ParserState {
    ParserState { ended: false, road_started: false, default_kind: RoadKind::Road }
}

/// Reading lines from index `k` on, in state `st`, after the commands `done`.
pub open spec fn run_from(
    lines: Seq<Seq<char>>,
    k: int,
    st: ParserState,
    done: Seq<(nat, CommandView)>,
) -> ScriptView
    decreases lines.len() - k,
{
    if k < 0 || k >= lines.len() {
        ScriptView { commands: done, error: None }
    } else {
        match tokenize_spec(lines[k]) {
            Err(e) => ScriptView { commands: done, error: Some(line_error((k + 1) as nat, e)) },
            Ok(toks) => if toks.len() == 0 {
                run_from(lines, k + 1, st, done)
            } else {
                match command_spec(st, toks) {
                    Err(e) => ScriptView {
                        commands: done,
                        error: Some(line_error((k + 1) as nat, e)),
                    },
                    Ok(c) => run_from(
                        lines,
                        k + 1,
                        advance_spec(st, c),
                        done.push(((k + 1) as nat, c)),
                    ),
                }
            },
        }
    }
}

/// The syntax of a track file: nothing beyond 1 MB is read; otherwise each
/// line is tokenized and read in turn, up to the first error.
pub open spec fn script_spec(text: Seq<char>) -> ScriptView {
    if encode_utf8(text).len() > 1_000_000 {
        ScriptView { commands: seq![], error: Some("Track file exceeds the 1 MB limit"@) }
    } else {
        run_from(lines_spec(text), 0, initial_state(), seq![])
    }
}

fn line_message(n: usize, e: &String) -> (r: String)
    ensures
        r@ == line_error(n as nat, e@),
{
    let mut m: Vec<char> = Vec::new();
    extend_str(&mut m, "Line ");
    let d = decimal_chars(n as u128);
    extend_chars(&mut m, &d);
    extend_str(&mut m, ": ");
    extend_str(&mut m, e.as_str());
    assert(m@ =~= line_error(n as nat, e@));
    string_of(&m)
}

/// Reads the syntax of a whole track file.
pub fn parse_script(text: &str) -> (r: Script)
    ensures
        r@ == script_spec(text@),
{
    let chars = chars_of(text);
    let mut commands: Vec<ScriptLine> = Vec::new();
    assert(line_views(commands@) =~= Seq::<(nat, CommandView)>::empty());
    if utf8_len_exceeds(&chars, 1_000_000) {
        return Script {
            commands,
            error: Some(String::from_str("Track file exceeds the 1 MB limit")),
        };
    }
    let lines = split_lines(&chars);
    let ghost ls = views(lines@);
    let mut st = ParserState::new();
    let mut k: usize = 0;
    while k < lines.len()
        invariant
            k <= lines.len(),
            ls == views(lines@),
            ls == lines_spec(text@),
            script_spec(text@) == run_from(ls, k as int, st, line_views(commands@)),
        decreases lines.len() - k,
    {
        let n = k + 1;
        match tokenize(&lines[k]) {
            Err(e) => {
                return Script { commands, error: Some(line_message(n, &e)) };
            },
            Ok(toks) => {
                if toks.len() > 0 {
                    match st.command(&toks) {
                        Err(e) => {
                            return Script { commands, error: Some(line_message(n, &e)) };
                        },
                        Ok(c) => {
                            st = st.advance(&c);
                            let ghost before = line_views(commands@);
                            let ghost cv = c@;
                            commands.push(ScriptLine { line: n, command: c });
                            assert(line_views(commands@) =~= before.push((n as nat, cv)));
                        },
                    }
                }
            },
        }
        k += 1;
    }
    Script { commands, error: None }
}


// ---------------------------------------------------------------------------
// Laws of the format
// ---------------------------------------------------------------------------

pub open spec fn ends_route(c: CommandView) -> bool {
    c is Finish || c is Close
}

/// The commands read from any track file: their line numbers increase;
/// nothing follows a `finish` or `close`; `start` comes before every road
/// command; names and descriptions are at most 500 bytes.
pub open spec fn script_well_formed(cmds: Seq<(nat, CommandView)>) -> bool {
    &&& forall|i: int| 0 <= i < cmds.len() ==> 1 <= #[trigger] cmds[i].0
    &&& forall|i: int, j: int| 0 <= i < j < cmds.len() ==> #[trigger] cmds[i].0 < #[trigger] cmds[j].0
    &&& forall|i: int| 0 <= i < cmds.len() - 1 ==> !ends_route(#[trigger] cmds[i].1)
    &&& forall|i: int, j: int|
        0 <= i < j < cmds.len() && (#[trigger] cmds[j].1 is Start) ==> !(#[trigger] cmds[i].1 is Road)
    &&& forall|i: int|
        0 <= i < cmds.len() ==> match #[trigger] cmds[i].1 {
            CommandView::Name(v) => encode_utf8(v).len() <= 500,
            CommandView::Description(v) => encode_utf8(v).len() <= 500,
            _ => true,
        }
}

spec fn run_invariant(k: int, st: ParserState, done: Seq<(nat, CommandView)>) -> bool {
    &&& script_well_formed(done)
    &&& forall|i: int| 0 <= i < done.len() ==> #[trigger] done[i].0 <= k
    &&& forall|i: int| 0 <= i < done.len() && ends_route(#[trigger] done[i].1) ==> st.ended
    &&& !st.road_started ==> forall|i: int| 0 <= i < done.len() ==> !(#[trigger] done[i].1 is Road)
}

proof fn lemma_run_well_formed(
    lines: Seq<Seq<char>>,
    k: int,
    st: ParserState,
    done: Seq<(nat, CommandView)>,
)
    requires
        0 <= k,
        run_invariant(k, st, done),
    ensures
        script_well_formed(run_from(lines, k, st, done).commands),
    decreases lines.len() - k,
{
    if k < lines.len() {
        match tokenize_spec(lines[k]) {
            Err(e) => {},
            Ok(toks) => {
                if toks.len() == 0 {
                    lemma_run_well_formed(lines, k + 1, st, done);
                } else {
                    match command_spec(st, toks) {
                        Err(e) => {},
                        Ok(c) => {
                            let st2 = advance_spec(st, c);
                            let done2 = done.push(((k + 1) as nat, c));
                            assert(!st.ended);
                            assert forall|i: int| 0 <= i < done2.len() - 1 implies !ends_route(
                                #[trigger] done2[i].1,
                            ) by {
                                assert(done2[i] == done[i]);
                            }
                            assert forall|i: int, j: int|
                                0 <= i < j < done2.len() && (#[trigger] done2[j].1 is Start) implies !(
                            #[trigger] done2[i].1 is Road) by {
                                if j == done.len() {
                                    assert(done2[i] == done[i]);
                                } else {
                                    assert(done2[i] == done[i]);
                                    assert(done2[j] == done[j]);
                                }
                            }
                            assert forall|i: int, j: int|
                                0 <= i < j < done2.len() implies #[trigger] done2[i].0
                                < #[trigger] done2[j].0 by {
                                assert(done2[i] == done[i]);
                                if j < done.len() {
                                    assert(done2[j] == done[j]);
                                }
                            }
                            assert(script_well_formed(done2));
                            assert(run_invariant(k + 1, st2, done2));
                            lemma_run_well_formed(lines, k + 1, st2, done2);
                        },
                    }
                }
            },
        }
    }
}

/// Every accepted track file keeps to the format's ordering and size rules.
pub proof fn lemma_script_well_formed(text: Seq<char>)
    ensures
        script_well_formed(script_spec(text).commands),
{
    if encode_utf8(text).len() <= 1_000_000 {
        lemma_run_well_formed(lines_spec(text), 0, initial_state(), seq![]);
    }
}


proof fn lemma_comment_from(
    line: Seq<char>,
    p: int,
    i: int,
    tokens: Seq<Seq<char>>,
    token: Seq<char>,
    has_token: bool,
)
    requires
        0 <= i <= p < line.len(),
        line[p] == '#',
        forall|j: int| 0 <= j < p ==> line[j] != '"',
    ensures
        tokenize_from(line, i, tokens, token, false, has_token) == tokenize_from(
            line.take(p),
            i,
            tokens,
            token,
            false,
            has_token,
        ),
    decreases p - i,
{
    let short = line.take(p);
    if i < p {
        assert(short[i] == line[i]);
        let c = line[i];
        if spec_is_whitespace(c) && has_token {
            lemma_comment_from(line, p, i + 1, tokens.push(token), seq![], false);
        } else if spec_is_whitespace(c) {
            lemma_comment_from(line, p, i + 1, tokens, token, has_token);
        } else if c != '#' {
            lemma_comment_from(line, p, i + 1, tokens, token.push(c), true);
        }
    }
}

/// Outside quotes, `#` starts a comment: nothing after it is read.
pub proof fn lemma_comment_ends_line(line: Seq<char>, p: int)
    requires
        0 <= p < line.len(),
        line[p] == '#',
        forall|j: int| 0 <= j < p ==> line[j] != '"',
    ensures
        tokenize_spec(line) == tokenize_spec(line.take(p)),
{
    lemma_comment_from(line, p, 0, seq![], seq![], false);
}

proof fn lemma_quoted_from(w: Seq<char>, i: int)
    requires
        1 <= i <= w.len() + 1,
        forall|j: int| 0 <= j < w.len() ==> w[j] != '"' && w[j] != '\\',
    ensures
        tokenize_from(seq!['"'] + w + seq!['"'], i, seq![], w.take(i - 1), true, true) == Ok::<
            Seq<Seq<char>>,
            Seq<char>,
        >(seq![w]),
    decreases w.len() + 1 - i,
{
    let line = seq!['"'] + w + seq!['"'];
    if i == w.len() + 1 {
        assert(line[i] == '"');
        assert(w.take(i - 1) =~= w);
        assert(tokenize_from(line, i + 1, seq![], w, false, true) == tokens_at_end(
            seq![],
            w,
            false,
            true,
        ));
        assert(Seq::<Seq<char>>::empty().push(w) =~= seq![w]);
    } else {
        assert(line[i] == w[i - 1]);
        assert(w.take(i) =~= w.take(i - 1).push(w[i - 1]));
        lemma_quoted_from(w, i + 1);
    }
}

/// Quoted text is a single token, whatever it holds besides quotes and
/// backslashes, including `#` and white space.
pub proof fn lemma_quoted_text_is_one_token(w: Seq<char>)
    requires
        forall|j: int| 0 <= j < w.len() ==> w[j] != '"' && w[j] != '\\',
    ensures
        tokenize_spec(seq!['"'] + w + seq!['"']) == Ok::<Seq<Seq<char>>, Seq<char>>(seq![w]),
{
    let line = seq!['"'] + w + seq!['"'];
    assert(line[0] == '"');
    assert(w.take(0) =~= Seq::<char>::empty());
    lemma_quoted_from(w, 1);
}


/// The words that name commands.
pub open spec fn known_command(cmd: Seq<char>) -> bool {
    ||| cmd == "name"@
    ||| cmd == "description"@
    ||| cmd == "start"@
    ||| cmd == "width"@
    ||| cmd == "kind"@
    ||| cmd == "checkpoint"@
    ||| cmd == "finish"@
    ||| cmd == "close"@
    ||| shape_spec(cmd) is Some
}

/// A line starting with any other word is an error.
pub proof fn lemma_unknown_command_rejected(st: ParserState, tokens: Seq<Seq<char>>)
    requires
        tokens.len() >= 1,
        !known_command(tokens[0]),
    ensures
        command_spec(st, tokens) is Err,
{
}

pub open spec fn option_word(name: Seq<char>) -> bool {
    name == "rise"@ || name == "bank"@ || name == "kind"@
}

pub open spec fn seen_word(name: Seq<char>, seen_rise: bool, seen_bank: bool, seen_kind: bool) -> bool {
    (name == "rise"@ && seen_rise) || (name == "bank"@ && seen_bank) || (name == "kind"@
        && seen_kind)
}

proof fn lemma_duplicate_from(
    opts: Seq<Seq<char>>,
    p: int,
    settings: Seq<SettingView>,
    kind: RoadKind,
    seen_rise: bool,
    seen_bank: bool,
    seen_kind: bool,
    a: int,
    b: int,
)
    requires
        0 <= p <= b,
        0 <= a < b,
        2 * b + 1 < opts.len(),
        opts[2 * a] == opts[2 * b],
        option_word(opts[2 * a]),
        p > a ==> seen_word(opts[2 * a], seen_rise, seen_bank, seen_kind),
    ensures
        options_from(opts, p, settings, kind, seen_rise, seen_bank, seen_kind).2 is Some,
    decreases b - p,
{
    reveal_strlit("rise");
    reveal_strlit("bank");
    reveal_strlit("kind");
    let name = opts[2 * p];
    let value = opts[2 * p + 1];
    assert("rise"@ != "bank"@ && "rise"@ != "kind"@ && "bank"@ != "kind"@) by {
        assert("rise"@[0] != "bank"@[0]);
        assert("rise"@[0] != "kind"@[0]);
        assert("bank"@[0] != "kind"@[0]);
    }
    if p == b {
        assert(name == opts[2 * a]);
        assert(seen_word(name, seen_rise, seen_bank, seen_kind));
    }
    if p < b {
        if name == "rise"@ && !seen_rise {
            lemma_duplicate_from(
                opts,
                p + 1,
                settings.push(SettingView::Rise(value)),
                kind,
                true,
                seen_bank,
                seen_kind,
                a,
                b,
            );
        } else if name == "bank"@ && !seen_bank {
            lemma_duplicate_from(
                opts,
                p + 1,
                settings.push(SettingView::Bank(value)),
                kind,
                seen_rise,
                true,
                seen_kind,
                a,
                b,
            );
        } else if name == "kind"@ && !seen_kind {
            if let Ok(k) = kind_spec(value) {
                lemma_duplicate_from(
                    opts,
                    p + 1,
                    settings.push(SettingView::Kind(k)),
                    k,
                    seen_rise,
                    seen_bank,
                    true,
                    a,
                    b,
                );
            }
        }
    }
}

/// Giving any road option twice is an error.
pub proof fn lemma_duplicate_option_rejected(opts: Seq<Seq<char>>, kind: RoadKind, a: int, b: int)
    requires
        0 <= a < b,
        2 * b + 1 < opts.len(),
        opts.len() % 2 == 0,
        opts[2 * a] == opts[2 * b],
        option_word(opts[2 * a]),
    ensures
        options_spec(opts, kind).2 is Some,
{
    lemma_duplicate_from(opts, 0, seq![], kind, false, false, false, a, b);
}

} // verus!

verus! {

proof fn lemma_words_differ()
    ensures
        "left"@ != "name"@,
        "left"@ != "description"@,
        "left"@ != "start"@,
        "left"@ != "width"@,
        "left"@ != "kind"@,
        "left"@ != "checkpoint"@,
        "left"@ != "finish"@,
        "left"@ != "close"@,
        "left"@ != "straight"@,
        "left"@ != "bridge"@,
        "left"@ != "tunnel"@,
        "left"@ != "ramp"@,
        "left"@ != "gap"@,
        "right"@ != "name"@,
        "right"@ != "description"@,
        "right"@ != "start"@,
        "right"@ != "width"@,
        "right"@ != "kind"@,
        "right"@ != "checkpoint"@,
        "right"@ != "finish"@,
        "right"@ != "close"@,
        "right"@ != "straight"@,
        "right"@ != "bridge"@,
        "right"@ != "tunnel"@,
        "right"@ != "ramp"@,
        "right"@ != "gap"@,
        "right"@ != "left"@,
{
    reveal_strlit("left");
    reveal_strlit("right");
    reveal_strlit("name");
    reveal_strlit("description");
    reveal_strlit("start");
    reveal_strlit("width");
    reveal_strlit("kind");
    reveal_strlit("checkpoint");
    reveal_strlit("finish");
    reveal_strlit("close");
    reveal_strlit("straight");
    reveal_strlit("bridge");
    reveal_strlit("tunnel");
    reveal_strlit("ramp");
    reveal_strlit("gap");
    assert("left"@[0] != "name"@[0]);
    assert("left"@[0] != "description"@[0]);
    assert("left"@[0] != "start"@[0]);
    assert("left"@[0] != "width"@[0]);
    assert("left"@[0] != "kind"@[0]);
    assert("left"@[0] != "checkpoint"@[0]);
    assert("left"@[0] != "finish"@[0]);
    assert("left"@[0] != "close"@[0]);
    assert("left"@[0] != "straight"@[0]);
    assert("left"@[0] != "bridge"@[0]);
    assert("left"@[0] != "tunnel"@[0]);
    assert("left"@[0] != "ramp"@[0]);
    assert("left"@[0] != "gap"@[0]);
    assert("right"@[0] != "name"@[0]);
    assert("right"@[0] != "description"@[0]);
    assert("right"@[0] != "start"@[0]);
    assert("right"@[0] != "width"@[0]);
    assert("right"@[0] != "kind"@[0]);
    assert("right"@[0] != "checkpoint"@[0]);
    assert("right"@[0] != "finish"@[0]);
    assert("right"@[0] != "close"@[0]);
    assert("right"@[0] != "straight"@[0]);
    assert("right"@[0] != "bridge"@[0]);
    assert("right"@[0] != "tunnel"@[0]);
    assert("right"@[1] != "ramp"@[1]);
    assert("right"@[0] != "gap"@[0]);
    assert("right"@[0] != "left"@[0]);
}

/// A line starting with `left` that is read as a command is a left turn,
/// and one starting with `right` is a right turn: the two directions are
/// never confused, whatever the options and the earlier lines.
pub proof fn lemma_turn_direction_follows_word(st: ParserState, tokens: Seq<Seq<char>>)
    requires
        tokens.len() >= 1,
        command_spec(st, tokens) is Ok,
    ensures
        tokens[0] == "left"@ ==> (command_spec(st, tokens)->Ok_0 matches CommandView::Road(r)
            && r.shape == RoadShape::Left),
        tokens[0] == "right"@ ==> (command_spec(st, tokens)->Ok_0 matches CommandView::Road(r)
            && r.shape == RoadShape::Right),
{
    lemma_words_differ();
}

/// A road command's amount is the word after the command and a turn's
/// radius the word after `radius`, as the line wrote them.
pub proof fn lemma_turn_keeps_its_numbers(st: ParserState, tokens: Seq<Seq<char>>)
    requires
        tokens.len() >= 1,
        tokens[0] == "left"@ || tokens[0] == "right"@,
        command_spec(st, tokens) is Ok,
    ensures
        tokens.len() >= 4,
        tokens[2] == "radius"@,
        command_spec(st, tokens)->Ok_0 matches CommandView::Road(r) && r.amount == tokens[1]
            && r.radius == Some(tokens[3]),
{
    lemma_words_differ();
    assert(tokens.skip(1)[1] == tokens[2]);
}

} // verus!
