//! The command line, and what it asks for.

use crate::text;
use crate::text::{same, strip_prefix};
use vstd::prelude::*;
use vstd::string::*;

verus! {

/// The options of the command line.
#[derive(Debug)]
pub struct Args {
    pub config: Option<String>,
    pub webhook_url: Option<String>,
    pub test_webhook: bool,
    pub dump_tree: bool,
    pub test_detection: bool,
    pub once: bool,
    pub status: bool,
    pub menu: bool,
    pub no_gui: bool,
    pub verbose: bool,
    pub help: bool,
}

/// What the options say.
#[verifier::ext_equal]
pub struct ArgsView {
    pub config: Option<Seq<char>>,
    pub webhook_url: Option<Seq<char>>,
    pub test_webhook: bool,
    pub dump_tree: bool,
    pub test_detection: bool,
    pub once: bool,
    pub status: bool,
    pub menu: bool,
    pub no_gui: bool,
    pub verbose: bool,
    pub help: bool,
}

impl View for Args {
    type V = ArgsView;

    open spec fn view(&self) -> ArgsView {
        ArgsView {
            config: text::opt_text(self.config),
            webhook_url: text::opt_text(self.webhook_url),
            test_webhook: self.test_webhook,
            dump_tree: self.dump_tree,
            test_detection: self.test_detection,
            once: self.once,
            status: self.status,
            menu: self.menu,
            no_gui: self.no_gui,
            verbose: self.verbose,
            help: self.help,
        }
    }
}

/// No option at all.
pub open spec fn no_args() -> ArgsView {
    ArgsView {
        config: None,
        webhook_url: None,
        test_webhook: false,
        dump_tree: false,
        test_detection: false,
        once: false,
        status: false,
        menu: false,
        no_gui: false,
        verbose: false,
        help: false,
    }
}

impl Default for Args {
    fn default() -> (r: Args)
        ensures
            r@ == no_args(),
    {
        Args {
            config: None,
            webhook_url: None,
            test_webhook: false,
            dump_tree: false,
            test_detection: false,
            once: false,
            status: false,
            menu: false,
            no_gui: false,
            verbose: false,
            help: false,
        }
    }
}

/// The word at an index, where there is one.
pub open spec fn word_at(argv: Seq<Seq<char>>, i: int) -> Option<Seq<char>> {
    if 0 <= i < argv.len() {
        Some(argv[i])
    } else {
        None
    }
}

/// Whether the option takes the word behind it as its value.
pub open spec fn takes_next(word: Seq<char>) -> bool {
    word == "--config"@ || word == "--webhook-url"@
}

/// What an option adds to those before it; `next` is the word behind it. Of an
/// option that is given twice the later one counts. An unknown word adds
/// nothing.
pub open spec fn with_option(args: ArgsView, word: Seq<char>, next: Option<Seq<char>>) -> ArgsView {
    if word == "--config"@ {
        ArgsView { config: next, ..args }
    } else if text::begins_with(word, "--config="@) {
        ArgsView { config: Some(word.skip("--config="@.len() as int)), ..args }
    } else if word == "--webhook-url"@ {
        ArgsView { webhook_url: next, ..args }
    } else if text::begins_with(word, "--webhook-url="@) {
        ArgsView { webhook_url: Some(word.skip("--webhook-url="@.len() as int)), ..args }
    } else if word == "--test-webhook"@ {
        ArgsView { test_webhook: true, ..args }
    } else if word == "--dump-tree"@ {
        ArgsView { dump_tree: true, ..args }
    } else if word == "--test-detection"@ {
        ArgsView { test_detection: true, ..args }
    } else if word == "--once"@ {
        ArgsView { once: true, ..args }
    } else if word == "--status"@ {
        ArgsView { status: true, ..args }
    } else if word == "--menu"@ {
        ArgsView { menu: true, ..args }
    } else if word == "--no-gui"@ {
        ArgsView { no_gui: true, ..args }
    } else if word == "--verbose"@ || word == "-v"@ {
        ArgsView { verbose: true, ..args }
    } else if word == "--help"@ || word == "-h"@ {
        ArgsView { help: true, ..args }
    } else {
        args
    }
}

/// The options from a word of the command line on, with those before it.
pub open spec fn options_from(argv: Seq<Seq<char>>, i: int, args: ArgsView) -> ArgsView
    decreases
            if i < argv.len() {
                argv.len() - i
            } else {
                0
            },
{
    if i < 0 || i >= argv.len() {
        args
    } else {
        let more = with_option(args, argv[i], word_at(argv, i + 1));
        options_from(
            argv,
            if takes_next(argv[i]) {
                i + 2
            } else {
                i + 1
            },
            more,
        )
    }
}

fn word_behind(argv: &Vec<String>, i: usize) -> (r: Option<String>)
    requires
        i < argv@.len(),
    ensures
        text::opt_text(r) == word_at(text::texts(argv@), i + 1),
{
    if argv.len() - i > 1 {
        Some(argv[i + 1].clone())
    } else {
        None
    }
}

fn add_option(args: &mut Args, word: &str, next: Option<String>)
    ensures
        final(args)@ == with_option(old(args)@, word@, text::opt_text(next)),
{
    let ghost before = args@;
    if same(word, "--config") {
        args.config = next;
    } else if let Some(value) = strip_prefix(word, "--config=") {
        args.config = Some(value);
    } else if same(word, "--webhook-url") {
        args.webhook_url = next;
    } else if let Some(value) = strip_prefix(word, "--webhook-url=") {
        args.webhook_url = Some(value);
    } else if same(word, "--test-webhook") {
        args.test_webhook = true;
    } else if same(word, "--dump-tree") {
        args.dump_tree = true;
    } else if same(word, "--test-detection") {
        args.test_detection = true;
    } else if same(word, "--once") {
        args.once = true;
    } else if same(word, "--status") {
        args.status = true;
    } else if same(word, "--menu") {
        args.menu = true;
    } else if same(word, "--no-gui") {
        args.no_gui = true;
    } else if same(word, "--verbose") || same(word, "-v") {
        args.verbose = true;
    } else if same(word, "--help") || same(word, "-h") {
        args.help = true;
    }
    assert(args@ =~= with_option(before, word@, text::opt_text(next)));
}

/// Reads the command line. The first word is the name of the program.
pub fn parse_args(argv: &Vec<String>) -> (r: Args)
    ensures
        r@ == options_from(text::texts(argv@), 1, no_args()),
{
    let ghost all = text::texts(argv@);
    let mut args = Args::default();
    let mut i: usize = 1;
    while i < argv.len()
        invariant
            1 <= i,
            all == text::texts(argv@),
            options_from(all, 1, no_args()) == options_from(all, i as int, args@),
        decreases argv@.len() - i,
    {
        assert(all[i as int] == argv@[i as int]@);
        let word = argv[i].as_str();
        let next = word_behind(argv, i);
        add_option(&mut args, word, next);
        if same(word, "--config") || same(word, "--webhook-url") {
            if argv.len() - i <= 2 {
                assert(options_from(all, i + 2, args@) == args@);
                return args;
            }
            i = i + 2;
        } else {
            i = i + 1;
        }
    }
    args
}

// ---------------------------------------------------------------------------
// What to run
// ---------------------------------------------------------------------------

/// What the program is to do.
#[derive(Debug, Clone, Copy, PartialEq, Eq, Structural)]
pub enum Command {
    Help,
    DumpTree,
    TestDetection,
    Status { menu: bool },
    TestWebhook,
    /// Ask for the permission, say what is missing, and end.
    AskPermission,
    Once,
    Monitor,
    Gui,
}

/// The command that needs no look at the permission first, if one was asked
/// for.
pub open spec fn early_command(args: ArgsView) -> Option<Command> {
    if args.help {
        Some(Command::Help)
    } else if args.dump_tree {
        Some(Command::DumpTree)
    } else if args.test_detection {
        Some(Command::TestDetection)
    } else if args.status {
        Some(Command::Status { menu: args.menu })
    } else if args.test_webhook {
        Some(Command::TestWebhook)
    } else {
        None
    }
}

/// The command to run. The window opens without the permission too, so that it
/// can ask for it; what runs without a window does not.
pub open spec fn command(args: ArgsView, trusted: bool) -> Command {
    match early_command(args) {
        Some(command) => command,
        None => if !trusted && (args.no_gui || args.once) {
            Command::AskPermission
        } else if args.once {
            Command::Once
        } else if args.no_gui {
            Command::Monitor
        } else {
            Command::Gui
        },
    }
}

impl Args {
    /// The command that needs no look at the permission first, if one was
    /// asked for.
    pub fn early_command(&self) -> (r: Option<Command>)
        ensures
            r == early_command(self@),
    {
        if self.help {
            Some(Command::Help)
        } else if self.dump_tree {
            Some(Command::DumpTree)
        } else if self.test_detection {
            Some(Command::TestDetection)
        } else if self.status {
            Some(Command::Status { menu: self.menu })
        } else if self.test_webhook {
            Some(Command::TestWebhook)
        } else {
            None
        }
    }

    /// The command to run.
    pub fn command(&self, trusted: bool) -> (r: Command)
        ensures
            r == command(self@, trusted),
    {
        match self.early_command() {
            Some(command) => command,
            None => if !trusted && (self.no_gui || self.once) {
                Command::AskPermission
            } else if self.once {
                Command::Once
            } else if self.no_gui {
                Command::Monitor
            } else {
                Command::Gui
            },
        }
    }
}

/// What is logged unless the environment says otherwise.
pub open spec fn log_filter(verbose: bool, diagnostic_logging: bool) -> Seq<char> {
    if verbose || diagnostic_logging {
        "notification_forwarder=debug,nf_accessibility=debug,nf_webhook=debug"@
    } else {
        "notification_forwarder=info,nf_accessibility=info,nf_webhook=info"@
    }
}

/// What is logged unless the environment says otherwise.
pub fn default_log_filter(verbose: bool, diagnostic_logging: bool) -> (r: &'static str)
    ensures
        r@ == log_filter(verbose, diagnostic_logging),
{
    if verbose || diagnostic_logging {
        "notification_forwarder=debug,nf_accessibility=debug,nf_webhook=debug"
    } else {
        "notification_forwarder=info,nf_accessibility=info,nf_webhook=info"
    }
}

/// Nothing reads notifications without the permission: the monitor and the
/// single scan run only where it is granted.
pub proof fn law_scanning_needs_the_permission(args: ArgsView)
    ensures
        command(args, false) != Command::Monitor,
        command(args, false) != Command::Once,
{
}

/// With the permission, and unless a command that needs none was asked for, a
/// single scan is run exactly where `--once` was given, whatever else was. Of
/// the rest the monitor runs exactly where `--no-gui` was given, and otherwise
/// the window opens.
pub proof fn law_once_wins_over_the_window(args: ArgsView)
    requires
        !args.help,
        !args.dump_tree,
        !args.test_detection,
        !args.status,
        !args.test_webhook,
    ensures
        command(args, true) == Command::Once <==> args.once,
        command(args, true) == Command::Monitor <==> args.no_gui && !args.once,
        command(args, true) == Command::Gui <==> !args.no_gui && !args.once,
{
}

/// Without the permission the window opens exactly where neither `--once` nor
/// `--no-gui` was given; otherwise the permission is asked for. Granting it
/// changes nothing for the window.
pub proof fn law_only_the_window_opens_without_the_permission(args: ArgsView)
    requires
        !args.help,
        !args.dump_tree,
        !args.test_detection,
        !args.status,
        !args.test_webhook,
    ensures
        command(args, false) == Command::Gui <==> command(args, true) == Command::Gui,
        command(args, false) == Command::AskPermission <==> args.once || args.no_gui,
        command(args, true) != Command::AskPermission,
{
}

/// A command that needs no permission is run whether it is granted or not and
/// whatever stands behind it: help before the tree, the tree before the
/// detection, the detection before the status, the status before the test.
pub proof fn law_early_commands_have_their_order(args: ArgsView, trusted: bool)
    ensures
        command(args, trusted) == Command::Help <==> args.help,
        command(args, trusted) == Command::DumpTree <==> args.dump_tree && !args.help,
        command(args, trusted) == Command::TestDetection <==> args.test_detection
            && !args.dump_tree && !args.help,
        command(args, trusted) is Status <==> args.status && !args.test_detection
            && !args.dump_tree && !args.help,
        command(args, trusted) matches Command::Status { menu } ==> menu == args.menu,
        command(args, trusted) == Command::TestWebhook <==> args.test_webhook && !args.status
            && !args.test_detection && !args.dump_tree && !args.help,
{
}

/// What is run early is what is run: the look at the permission can only add
/// to it.
pub proof fn law_early_command_is_the_command(args: ArgsView, trusted: bool)
    ensures
        early_command(args) matches Some(early) ==> command(args, trusted) == early,
        early_command(args) is None <==> {
            ||| command(args, trusted) == Command::AskPermission
            ||| command(args, trusted) == Command::Once
            ||| command(args, trusted) == Command::Monitor
            ||| command(args, trusted) == Command::Gui
        },
{
}

/// Two words that differ somewhere, the second no longer than that, are not the
/// same, and the first does not begin with the second.
proof fn lemma_words_differ(word: Seq<char>, pat: Seq<char>, i: int)
    requires
        0 <= i < pat.len(),
        i < word.len() ==> word[i] != pat[i],
    ensures
        word != pat,
        !text::begins_with(word, pat),
{
    if text::begins_with(word, pat) {
        assert(word.take(pat.len() as int)[i] == word[i]);
    }
}

proof fn lemma_word_test_webhook(args: ArgsView, next: Option<Seq<char>>)
    ensures
        with_option(args, "--test-webhook"@, next) == (ArgsView { test_webhook: true, ..args }),
        !takes_next("--test-webhook"@),
{
    reveal_strlit("--test-webhook");
    reveal_strlit("--config");
    reveal_strlit("--config=");
    reveal_strlit("--webhook-url");
    reveal_strlit("--webhook-url=");
    reveal_strlit("--dump-tree");
    reveal_strlit("--test-detection");
    reveal_strlit("--once");
    reveal_strlit("--status");
    reveal_strlit("--menu");
    reveal_strlit("--no-gui");
    reveal_strlit("--verbose");
    reveal_strlit("-v");
    reveal_strlit("--help");
    reveal_strlit("-h");
    lemma_words_differ("--test-webhook"@, "--config"@, 2);
    lemma_words_differ("--test-webhook"@, "--config="@, 2);
    lemma_words_differ("--test-webhook"@, "--webhook-url"@, 2);
    lemma_words_differ("--test-webhook"@, "--webhook-url="@, 2);
    lemma_words_differ("--test-webhook"@, "--dump-tree"@, 2);
    lemma_words_differ("--test-webhook"@, "--test-detection"@, 7);
    lemma_words_differ("--test-webhook"@, "--once"@, 2);
    lemma_words_differ("--test-webhook"@, "--status"@, 2);
    lemma_words_differ("--test-webhook"@, "--menu"@, 2);
    lemma_words_differ("--test-webhook"@, "--no-gui"@, 2);
    lemma_words_differ("--test-webhook"@, "--verbose"@, 2);
    lemma_words_differ("--test-webhook"@, "-v"@, 1);
    lemma_words_differ("--test-webhook"@, "--help"@, 2);
    lemma_words_differ("--test-webhook"@, "-h"@, 1);
}

proof fn lemma_word_dump_tree(args: ArgsView, next: Option<Seq<char>>)
    ensures
        with_option(args, "--dump-tree"@, next) == (ArgsView { dump_tree: true, ..args }),
        !takes_next("--dump-tree"@),
{
    reveal_strlit("--dump-tree");
    reveal_strlit("--config");
    reveal_strlit("--config=");
    reveal_strlit("--webhook-url");
    reveal_strlit("--webhook-url=");
    reveal_strlit("--test-webhook");
    reveal_strlit("--test-detection");
    reveal_strlit("--once");
    reveal_strlit("--status");
    reveal_strlit("--menu");
    reveal_strlit("--no-gui");
    reveal_strlit("--verbose");
    reveal_strlit("-v");
    reveal_strlit("--help");
    reveal_strlit("-h");
    lemma_words_differ("--dump-tree"@, "--config"@, 2);
    lemma_words_differ("--dump-tree"@, "--config="@, 2);
    lemma_words_differ("--dump-tree"@, "--webhook-url"@, 2);
    lemma_words_differ("--dump-tree"@, "--webhook-url="@, 2);
    lemma_words_differ("--dump-tree"@, "--test-webhook"@, 2);
    lemma_words_differ("--dump-tree"@, "--test-detection"@, 2);
    lemma_words_differ("--dump-tree"@, "--once"@, 2);
    lemma_words_differ("--dump-tree"@, "--status"@, 2);
    lemma_words_differ("--dump-tree"@, "--menu"@, 2);
    lemma_words_differ("--dump-tree"@, "--no-gui"@, 2);
    lemma_words_differ("--dump-tree"@, "--verbose"@, 2);
    lemma_words_differ("--dump-tree"@, "-v"@, 1);
    lemma_words_differ("--dump-tree"@, "--help"@, 2);
    lemma_words_differ("--dump-tree"@, "-h"@, 1);
}

proof fn lemma_word_test_detection(args: ArgsView, next: Option<Seq<char>>)
    ensures
        with_option(args, "--test-detection"@, next) == (ArgsView { test_detection: true, ..args }),
        !takes_next("--test-detection"@),
{
    reveal_strlit("--test-detection");
    reveal_strlit("--config");
    reveal_strlit("--config=");
    reveal_strlit("--webhook-url");
    reveal_strlit("--webhook-url=");
    reveal_strlit("--test-webhook");
    reveal_strlit("--dump-tree");
    reveal_strlit("--once");
    reveal_strlit("--status");
    reveal_strlit("--menu");
    reveal_strlit("--no-gui");
    reveal_strlit("--verbose");
    reveal_strlit("-v");
    reveal_strlit("--help");
    reveal_strlit("-h");
    lemma_words_differ("--test-detection"@, "--config"@, 2);
    lemma_words_differ("--test-detection"@, "--config="@, 2);
    lemma_words_differ("--test-detection"@, "--webhook-url"@, 2);
    lemma_words_differ("--test-detection"@, "--webhook-url="@, 2);
    lemma_words_differ("--test-detection"@, "--test-webhook"@, 7);
    lemma_words_differ("--test-detection"@, "--dump-tree"@, 2);
    lemma_words_differ("--test-detection"@, "--once"@, 2);
    lemma_words_differ("--test-detection"@, "--status"@, 2);
    lemma_words_differ("--test-detection"@, "--menu"@, 2);
    lemma_words_differ("--test-detection"@, "--no-gui"@, 2);
    lemma_words_differ("--test-detection"@, "--verbose"@, 2);
    lemma_words_differ("--test-detection"@, "-v"@, 1);
    lemma_words_differ("--test-detection"@, "--help"@, 2);
    lemma_words_differ("--test-detection"@, "-h"@, 1);
}

proof fn lemma_word_once(args: ArgsView, next: Option<Seq<char>>)
    ensures
        with_option(args, "--once"@, next) == (ArgsView { once: true, ..args }),
        !takes_next("--once"@),
{
    reveal_strlit("--once");
    reveal_strlit("--config");
    reveal_strlit("--config=");
    reveal_strlit("--webhook-url");
    reveal_strlit("--webhook-url=");
    reveal_strlit("--test-webhook");
    reveal_strlit("--dump-tree");
    reveal_strlit("--test-detection");
    reveal_strlit("--status");
    reveal_strlit("--menu");
    reveal_strlit("--no-gui");
    reveal_strlit("--verbose");
    reveal_strlit("-v");
    reveal_strlit("--help");
    reveal_strlit("-h");
    lemma_words_differ("--once"@, "--config"@, 2);
    lemma_words_differ("--once"@, "--config="@, 2);
    lemma_words_differ("--once"@, "--webhook-url"@, 2);
    lemma_words_differ("--once"@, "--webhook-url="@, 2);
    lemma_words_differ("--once"@, "--test-webhook"@, 2);
    lemma_words_differ("--once"@, "--dump-tree"@, 2);
    lemma_words_differ("--once"@, "--test-detection"@, 2);
    lemma_words_differ("--once"@, "--status"@, 2);
    lemma_words_differ("--once"@, "--menu"@, 2);
    lemma_words_differ("--once"@, "--no-gui"@, 2);
    lemma_words_differ("--once"@, "--verbose"@, 2);
    lemma_words_differ("--once"@, "-v"@, 1);
    lemma_words_differ("--once"@, "--help"@, 2);
    lemma_words_differ("--once"@, "-h"@, 1);
}

proof fn lemma_word_status(args: ArgsView, next: Option<Seq<char>>)
    ensures
        with_option(args, "--status"@, next) == (ArgsView { status: true, ..args }),
        !takes_next("--status"@),
{
    reveal_strlit("--status");
    reveal_strlit("--config");
    reveal_strlit("--config=");
    reveal_strlit("--webhook-url");
    reveal_strlit("--webhook-url=");
    reveal_strlit("--test-webhook");
    reveal_strlit("--dump-tree");
    reveal_strlit("--test-detection");
    reveal_strlit("--once");
    reveal_strlit("--menu");
    reveal_strlit("--no-gui");
    reveal_strlit("--verbose");
    reveal_strlit("-v");
    reveal_strlit("--help");
    reveal_strlit("-h");
    lemma_words_differ("--status"@, "--config"@, 2);
    lemma_words_differ("--status"@, "--config="@, 2);
    lemma_words_differ("--status"@, "--webhook-url"@, 2);
    lemma_words_differ("--status"@, "--webhook-url="@, 2);
    lemma_words_differ("--status"@, "--test-webhook"@, 2);
    lemma_words_differ("--status"@, "--dump-tree"@, 2);
    lemma_words_differ("--status"@, "--test-detection"@, 2);
    lemma_words_differ("--status"@, "--once"@, 2);
    lemma_words_differ("--status"@, "--menu"@, 2);
    lemma_words_differ("--status"@, "--no-gui"@, 2);
    lemma_words_differ("--status"@, "--verbose"@, 2);
    lemma_words_differ("--status"@, "-v"@, 1);
    lemma_words_differ("--status"@, "--help"@, 2);
    lemma_words_differ("--status"@, "-h"@, 1);
}

proof fn lemma_word_menu(args: ArgsView, next: Option<Seq<char>>)
    ensures
        with_option(args, "--menu"@, next) == (ArgsView { menu: true, ..args }),
        !takes_next("--menu"@),
{
    reveal_strlit("--menu");
    reveal_strlit("--config");
    reveal_strlit("--config=");
    reveal_strlit("--webhook-url");
    reveal_strlit("--webhook-url=");
    reveal_strlit("--test-webhook");
    reveal_strlit("--dump-tree");
    reveal_strlit("--test-detection");
    reveal_strlit("--once");
    reveal_strlit("--status");
    reveal_strlit("--no-gui");
    reveal_strlit("--verbose");
    reveal_strlit("-v");
    reveal_strlit("--help");
    reveal_strlit("-h");
    lemma_words_differ("--menu"@, "--config"@, 2);
    lemma_words_differ("--menu"@, "--config="@, 2);
    lemma_words_differ("--menu"@, "--webhook-url"@, 2);
    lemma_words_differ("--menu"@, "--webhook-url="@, 2);
    lemma_words_differ("--menu"@, "--test-webhook"@, 2);
    lemma_words_differ("--menu"@, "--dump-tree"@, 2);
    lemma_words_differ("--menu"@, "--test-detection"@, 2);
    lemma_words_differ("--menu"@, "--once"@, 2);
    lemma_words_differ("--menu"@, "--status"@, 2);
    lemma_words_differ("--menu"@, "--no-gui"@, 2);
    lemma_words_differ("--menu"@, "--verbose"@, 2);
    lemma_words_differ("--menu"@, "-v"@, 1);
    lemma_words_differ("--menu"@, "--help"@, 2);
    lemma_words_differ("--menu"@, "-h"@, 1);
}

proof fn lemma_word_no_gui(args: ArgsView, next: Option<Seq<char>>)
    ensures
        with_option(args, "--no-gui"@, next) == (ArgsView { no_gui: true, ..args }),
        !takes_next("--no-gui"@),
{
    reveal_strlit("--no-gui");
    reveal_strlit("--config");
    reveal_strlit("--config=");
    reveal_strlit("--webhook-url");
    reveal_strlit("--webhook-url=");
    reveal_strlit("--test-webhook");
    reveal_strlit("--dump-tree");
    reveal_strlit("--test-detection");
    reveal_strlit("--once");
    reveal_strlit("--status");
    reveal_strlit("--menu");
    reveal_strlit("--verbose");
    reveal_strlit("-v");
    reveal_strlit("--help");
    reveal_strlit("-h");
    lemma_words_differ("--no-gui"@, "--config"@, 2);
    lemma_words_differ("--no-gui"@, "--config="@, 2);
    lemma_words_differ("--no-gui"@, "--webhook-url"@, 2);
    lemma_words_differ("--no-gui"@, "--webhook-url="@, 2);
    lemma_words_differ("--no-gui"@, "--test-webhook"@, 2);
    lemma_words_differ("--no-gui"@, "--dump-tree"@, 2);
    lemma_words_differ("--no-gui"@, "--test-detection"@, 2);
    lemma_words_differ("--no-gui"@, "--once"@, 2);
    lemma_words_differ("--no-gui"@, "--status"@, 2);
    lemma_words_differ("--no-gui"@, "--menu"@, 2);
    lemma_words_differ("--no-gui"@, "--verbose"@, 2);
    lemma_words_differ("--no-gui"@, "-v"@, 1);
    lemma_words_differ("--no-gui"@, "--help"@, 2);
    lemma_words_differ("--no-gui"@, "-h"@, 1);
}

proof fn lemma_word_verbose(args: ArgsView, next: Option<Seq<char>>)
    ensures
        with_option(args, "--verbose"@, next) == (ArgsView { verbose: true, ..args }),
        !takes_next("--verbose"@),
{
    reveal_strlit("--verbose");
    reveal_strlit("--config");
    reveal_strlit("--config=");
    reveal_strlit("--webhook-url");
    reveal_strlit("--webhook-url=");
    reveal_strlit("--test-webhook");
    reveal_strlit("--dump-tree");
    reveal_strlit("--test-detection");
    reveal_strlit("--once");
    reveal_strlit("--status");
    reveal_strlit("--menu");
    reveal_strlit("--no-gui");
    reveal_strlit("-v");
    reveal_strlit("--help");
    reveal_strlit("-h");
    lemma_words_differ("--verbose"@, "--config"@, 2);
    lemma_words_differ("--verbose"@, "--config="@, 2);
    lemma_words_differ("--verbose"@, "--webhook-url"@, 2);
    lemma_words_differ("--verbose"@, "--webhook-url="@, 2);
    lemma_words_differ("--verbose"@, "--test-webhook"@, 2);
    lemma_words_differ("--verbose"@, "--dump-tree"@, 2);
    lemma_words_differ("--verbose"@, "--test-detection"@, 2);
    lemma_words_differ("--verbose"@, "--once"@, 2);
    lemma_words_differ("--verbose"@, "--status"@, 2);
    lemma_words_differ("--verbose"@, "--menu"@, 2);
    lemma_words_differ("--verbose"@, "--no-gui"@, 2);
    lemma_words_differ("--verbose"@, "-v"@, 1);
    lemma_words_differ("--verbose"@, "--help"@, 2);
    lemma_words_differ("--verbose"@, "-h"@, 1);
}

proof fn lemma_word_short_verbose(args: ArgsView, next: Option<Seq<char>>)
    ensures
        with_option(args, "-v"@, next) == (ArgsView { verbose: true, ..args }),
        !takes_next("-v"@),
{
    reveal_strlit("-v");
    reveal_strlit("--config");
    reveal_strlit("--config=");
    reveal_strlit("--webhook-url");
    reveal_strlit("--webhook-url=");
    reveal_strlit("--test-webhook");
    reveal_strlit("--dump-tree");
    reveal_strlit("--test-detection");
    reveal_strlit("--once");
    reveal_strlit("--status");
    reveal_strlit("--menu");
    reveal_strlit("--no-gui");
    reveal_strlit("--verbose");
    reveal_strlit("--help");
    reveal_strlit("-h");
    lemma_words_differ("-v"@, "--config"@, 1);
    lemma_words_differ("-v"@, "--config="@, 1);
    lemma_words_differ("-v"@, "--webhook-url"@, 1);
    lemma_words_differ("-v"@, "--webhook-url="@, 1);
    lemma_words_differ("-v"@, "--test-webhook"@, 1);
    lemma_words_differ("-v"@, "--dump-tree"@, 1);
    lemma_words_differ("-v"@, "--test-detection"@, 1);
    lemma_words_differ("-v"@, "--once"@, 1);
    lemma_words_differ("-v"@, "--status"@, 1);
    lemma_words_differ("-v"@, "--menu"@, 1);
    lemma_words_differ("-v"@, "--no-gui"@, 1);
    lemma_words_differ("-v"@, "--verbose"@, 1);
    lemma_words_differ("-v"@, "--help"@, 1);
    lemma_words_differ("-v"@, "-h"@, 1);
}

proof fn lemma_word_help(args: ArgsView, next: Option<Seq<char>>)
    ensures
        with_option(args, "--help"@, next) == (ArgsView { help: true, ..args }),
        !takes_next("--help"@),
{
    reveal_strlit("--help");
    reveal_strlit("--config");
    reveal_strlit("--config=");
    reveal_strlit("--webhook-url");
    reveal_strlit("--webhook-url=");
    reveal_strlit("--test-webhook");
    reveal_strlit("--dump-tree");
    reveal_strlit("--test-detection");
    reveal_strlit("--once");
    reveal_strlit("--status");
    reveal_strlit("--menu");
    reveal_strlit("--no-gui");
    reveal_strlit("--verbose");
    reveal_strlit("-v");
    reveal_strlit("-h");
    lemma_words_differ("--help"@, "--config"@, 2);
    lemma_words_differ("--help"@, "--config="@, 2);
    lemma_words_differ("--help"@, "--webhook-url"@, 2);
    lemma_words_differ("--help"@, "--webhook-url="@, 2);
    lemma_words_differ("--help"@, "--test-webhook"@, 2);
    lemma_words_differ("--help"@, "--dump-tree"@, 2);
    lemma_words_differ("--help"@, "--test-detection"@, 2);
    lemma_words_differ("--help"@, "--once"@, 2);
    lemma_words_differ("--help"@, "--status"@, 2);
    lemma_words_differ("--help"@, "--menu"@, 2);
    lemma_words_differ("--help"@, "--no-gui"@, 2);
    lemma_words_differ("--help"@, "--verbose"@, 2);
    lemma_words_differ("--help"@, "-v"@, 1);
    lemma_words_differ("--help"@, "-h"@, 1);
}

proof fn lemma_word_short_help(args: ArgsView, next: Option<Seq<char>>)
    ensures
        with_option(args, "-h"@, next) == (ArgsView { help: true, ..args }),
        !takes_next("-h"@),
{
    reveal_strlit("-h");
    reveal_strlit("--config");
    reveal_strlit("--config=");
    reveal_strlit("--webhook-url");
    reveal_strlit("--webhook-url=");
    reveal_strlit("--test-webhook");
    reveal_strlit("--dump-tree");
    reveal_strlit("--test-detection");
    reveal_strlit("--once");
    reveal_strlit("--status");
    reveal_strlit("--menu");
    reveal_strlit("--no-gui");
    reveal_strlit("--verbose");
    reveal_strlit("-v");
    reveal_strlit("--help");
    lemma_words_differ("-h"@, "--config"@, 1);
    lemma_words_differ("-h"@, "--config="@, 1);
    lemma_words_differ("-h"@, "--webhook-url"@, 1);
    lemma_words_differ("-h"@, "--webhook-url="@, 1);
    lemma_words_differ("-h"@, "--test-webhook"@, 1);
    lemma_words_differ("-h"@, "--dump-tree"@, 1);
    lemma_words_differ("-h"@, "--test-detection"@, 1);
    lemma_words_differ("-h"@, "--once"@, 1);
    lemma_words_differ("-h"@, "--status"@, 1);
    lemma_words_differ("-h"@, "--menu"@, 1);
    lemma_words_differ("-h"@, "--no-gui"@, 1);
    lemma_words_differ("-h"@, "--verbose"@, 1);
    lemma_words_differ("-h"@, "-v"@, 1);
    lemma_words_differ("-h"@, "--help"@, 1);
}

/// Each word that takes no value sets its own option and leaves every other one
/// as it was, whatever stands behind it.
pub proof fn law_each_word_sets_its_option(args: ArgsView, next: Option<Seq<char>>)
    ensures
        with_option(args, "--test-webhook"@, next) == (ArgsView { test_webhook: true, ..args }),
        with_option(args, "--dump-tree"@, next) == (ArgsView { dump_tree: true, ..args }),
        with_option(args, "--test-detection"@, next) == (ArgsView { test_detection: true, ..args }),
        with_option(args, "--once"@, next) == (ArgsView { once: true, ..args }),
        with_option(args, "--status"@, next) == (ArgsView { status: true, ..args }),
        with_option(args, "--menu"@, next) == (ArgsView { menu: true, ..args }),
        with_option(args, "--no-gui"@, next) == (ArgsView { no_gui: true, ..args }),
        with_option(args, "--verbose"@, next) == (ArgsView { verbose: true, ..args }),
        with_option(args, "-v"@, next) == (ArgsView { verbose: true, ..args }),
        with_option(args, "--help"@, next) == (ArgsView { help: true, ..args }),
        with_option(args, "-h"@, next) == (ArgsView { help: true, ..args }),
{
    lemma_word_test_webhook(args, next);
    lemma_word_dump_tree(args, next);
    lemma_word_test_detection(args, next);
    lemma_word_once(args, next);
    lemma_word_status(args, next);
    lemma_word_menu(args, next);
    lemma_word_no_gui(args, next);
    lemma_word_verbose(args, next);
    lemma_word_short_verbose(args, next);
    lemma_word_help(args, next);
    lemma_word_short_help(args, next);
}

/// An option with a value takes it from the word behind it, or from what stands
/// behind the equals sign, and leaves every other one as it was.
pub proof fn law_values_are_taken_as_they_stand(
    args: ArgsView,
    value: Seq<char>,
    next: Option<Seq<char>>,
)
    ensures
        with_option(args, "--config"@, next) == (ArgsView { config: next, ..args }),
        with_option(args, "--webhook-url"@, next) == (ArgsView { webhook_url: next, ..args }),
        with_option(args, "--config="@ + value, next) == (ArgsView {
            config: Some(value),
            ..args
        }),
        with_option(args, "--webhook-url="@ + value, next) == (ArgsView {
            webhook_url: Some(value),
            ..args
        }),
        takes_next("--config"@),
        takes_next("--webhook-url"@),
        !takes_next("--config="@ + value),
        !takes_next("--webhook-url="@ + value),
{
    reveal_strlit("--config");
    reveal_strlit("--config=");
    reveal_strlit("--webhook-url");
    reveal_strlit("--webhook-url=");
    lemma_words_differ("--webhook-url"@, "--config"@, 2);
    lemma_words_differ("--webhook-url"@, "--config="@, 2);
    let c = "--config="@ + value;
    let w = "--webhook-url="@ + value;
    assert(c.take("--config="@.len() as int) =~= "--config="@);
    assert(c.skip("--config="@.len() as int) =~= value);
    assert(w.take("--webhook-url="@.len() as int) =~= "--webhook-url="@);
    assert(w.skip("--webhook-url="@.len() as int) =~= value);
    assert(c[8] == '=');
    assert(c.len() > "--config"@.len());
    assert(w.len() > "--webhook-url"@.len());
    assert(c[2] == 'c');
    assert(w[2] == 'w');
    lemma_words_differ(c, "--webhook-url"@, 2);
    lemma_words_differ(w, "--config"@, 2);
    lemma_words_differ(w, "--config="@, 2);
}

/// A word that is none of the options adds nothing.
pub proof fn law_unknown_words_add_nothing(
    args: ArgsView,
    word: Seq<char>,
    next: Option<Seq<char>>,
)
    requires
        !text::begins_with(word, "--config="@),
        !text::begins_with(word, "--webhook-url="@),
        word != "--config"@,
        word != "--webhook-url"@,
        word != "--test-webhook"@,
        word != "--dump-tree"@,
        word != "--test-detection"@,
        word != "--once"@,
        word != "--status"@,
        word != "--menu"@,
        word != "--no-gui"@,
        word != "--verbose"@,
        word != "-v"@,
        word != "--help"@,
        word != "-h"@,
    ensures
        with_option(args, word, next) == args,
        !takes_next(word),
{
}

/// What a command line says.
pub open spec fn told(argv: Seq<Seq<char>>) -> ArgsView {
    options_from(argv, 1, no_args())
}

proof fn lemma_word_at_the_end(argv: Seq<Seq<char>>, word: Seq<char>, i: int, args: ArgsView)
    requires
        0 <= i <= argv.len(),
        i < argv.len() ==> !takes_next(argv.last()),
    ensures
        options_from(argv.push(word), i, args) == with_option(
            options_from(argv, i, args),
            word,
            None,
        ),
    decreases argv.len() - i,
{
    let longer = argv.push(word);
    if i < argv.len() {
        assert(longer[i] == argv[i]);
        if i + 1 < argv.len() {
            assert(word_at(longer, i + 1) == word_at(argv, i + 1));
        }
        let more = with_option(args, argv[i], word_at(argv, i + 1));
        assert(with_option(args, longer[i], word_at(longer, i + 1)) == more);
        if takes_next(argv[i]) {
            lemma_word_at_the_end(argv, word, i + 2, more);
        } else {
            lemma_word_at_the_end(argv, word, i + 1, more);
        }
    } else {
        let more = with_option(args, word, None);
        assert(longer[i] == word);
        assert(word_at(longer, i + 1) is None);
        assert(options_from(longer, i + 1, more) == more);
        assert(options_from(longer, i + 2, more) == more);
    }
}

/// A word at the end of a command line adds what it stands for to what was told
/// before it, unless the word before it takes it as its value.
pub proof fn law_words_add_up(argv: Seq<Seq<char>>, word: Seq<char>)
    requires
        argv.len() > 0,
        argv.len() > 1 ==> !takes_next(argv.last()),
    ensures
        told(argv.push(word)) == with_option(told(argv), word, None),
{
    lemma_word_at_the_end(argv, word, 1, no_args());
}

proof fn lemma_value_at_the_end(
    argv: Seq<Seq<char>>,
    word: Seq<char>,
    value: Seq<char>,
    i: int,
    args: ArgsView,
)
    requires
        0 <= i <= argv.len(),
        i < argv.len() ==> !takes_next(argv.last()),
        takes_next(word),
    ensures
        options_from(argv.push(word).push(value), i, args) == with_option(
            options_from(argv, i, args),
            word,
            Some(value),
        ),
    decreases argv.len() - i,
{
    let longer = argv.push(word).push(value);
    if i < argv.len() {
        assert(longer[i] == argv[i]);
        if i + 1 < argv.len() {
            assert(word_at(longer, i + 1) == word_at(argv, i + 1));
        }
        let more = with_option(args, argv[i], word_at(argv, i + 1));
        assert(with_option(args, longer[i], word_at(longer, i + 1)) == more);
        if takes_next(argv[i]) {
            lemma_value_at_the_end(argv, word, value, i + 2, more);
        } else {
            lemma_value_at_the_end(argv, word, value, i + 1, more);
        }
    } else {
        let more = with_option(args, word, Some(value));
        assert(longer[i] == word);
        assert(word_at(longer, i + 1) == Some(value));
        assert(options_from(longer, i + 2, more) == more);
    }
}

/// The word behind `--config` or `--webhook-url` is its value and nothing else:
/// it is not read as an option, whatever it says.
pub proof fn law_values_are_no_options(argv: Seq<Seq<char>>, word: Seq<char>, value: Seq<char>)
    requires
        argv.len() > 0,
        argv.len() > 1 ==> !takes_next(argv.last()),
        takes_next(word),
    ensures
        told(argv.push(word).push(value)) == with_option(told(argv), word, Some(value)),
{
    lemma_value_at_the_end(argv, word, value, 1, no_args());
}

/// The name of the program alone asks for nothing, and with the permission or
/// without it the window opens.
pub proof fn law_no_option_opens_the_window(program: Seq<char>, trusted: bool)
    ensures
        told(seq![program]).config is None,
        told(seq![program]).webhook_url is None,
        !told(seq![program]).verbose,
        !told(seq![program]).menu,
        command(told(seq![program]), trusted) == Command::Gui,
{
}

/// The option and the setting ask for the same: with either of them more is
/// logged, of every part of the program, and both together ask for no more.
pub proof fn law_either_switch_makes_the_log_verbose(verbose: bool, diagnostic: bool)
    ensures
        verbose ==> log_filter(verbose, diagnostic) == log_filter(true, true),
        diagnostic ==> log_filter(verbose, diagnostic) == log_filter(true, true),
        log_filter(true, true)
            == "notification_forwarder=debug,nf_accessibility=debug,nf_webhook=debug"@,
        log_filter(false, false)
            == "notification_forwarder=info,nf_accessibility=info,nf_webhook=info"@,
{
}

/// What the options say is what each of them holds.
pub proof fn law_options_say_what_they_hold(a: Args)
    ensures
        a@.config == text::opt_text(a.config),
        a@.webhook_url == text::opt_text(a.webhook_url),
        (a@.test_webhook, a@.dump_tree, a@.test_detection) == (
            a.test_webhook,
            a.dump_tree,
            a.test_detection,
        ),
        (a@.once, a@.status, a@.menu, a@.no_gui) == (a.once, a.status, a.menu, a.no_gui),
        (a@.verbose, a@.help) == (a.verbose, a.help),
{
}

} // verus!
