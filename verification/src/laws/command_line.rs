//! What holds of every command line.
use crate::launcher::{
    class_path, filled, fixed_parameters, key_is_set, launch_arguments,
    law_version_file_overrides_parameters, listed_jvm_arguments, log_arguments, machine_arguments,
    placeholder_values, plain_game_arguments, raw_arguments, sets_key, slashed, unset_parameters,
    written_game_arguments, GameArgument, JvmArgument, LaunchPathsView, LauncherConfig,
    PlaceholdersView, SystemInfo, VersionJson,
};
use crate::patterns::{
    cleared, first_placeholder, has_placeholder, lemma_first_placeholder, placeholder_at,
};
use crate::text::{
    before_first, contains, joined, law_exchanging_characters_keeps_the_rest,
    law_split_undoes_join, lemma_first_separator, lemma_joined_characters, lemma_joined_front,
    lemma_next_occurrence, lemma_only_pattern, lemma_without_pattern, next_occurrence, occurs_at, replaced, split,
};
use vstd::prelude::*;

verus! {

// ---------------------------------------------------------------------------------------------
// Placeholders
// ---------------------------------------------------------------------------------------------

/// A text is one placeholder and nothing else.
pub open spec fn is_one_placeholder(text: Seq<char>) -> bool {
    &&& text.len() >= 3
    &&& text[0] == '$'
    &&& text[1] == '{'
    &&& text.last() == '}'
    &&& forall|i: int| 0 < i < text.len() ==> text[i] != '$'
    &&& forall|i: int| 0 <= i < text.len() - 1 ==> text[i] != '}'
}

/// One placeholder stands in another only where both are the same.
proof fn lemma_placeholders_differ(text: Seq<char>, mark: Seq<char>)
    requires
        is_one_placeholder(text),
        is_one_placeholder(mark),
        contains(text, mark),
    ensures
        text == mark,
{
    let at = choose|at: int| occurs_at(text, mark, at);
    let part = text.subrange(at, at + mark.len());
    assert(part[0] == text[at]);
    assert(part[mark.len() - 1] == text[at + mark.len() - 1]);
    assert(at == 0);
    assert(mark.len() == text.len());
    assert(text =~= part);
}

/// A text without placeholders holds none in particular.
proof fn lemma_no_placeholder_within(text: Seq<char>, mark: Seq<char>)
    requires
        !has_placeholder(text),
        is_one_placeholder(mark),
    ensures
        !contains(text, mark),
{
    if contains(text, mark) {
        let at = choose|at: int| occurs_at(text, mark, at);
        let part = text.subrange(at, at + mark.len());
        let end = at + mark.len() - 1;
        assert(part[0] == text[at] && part[1] == text[at + 1]);
        assert(part[mark.len() - 1] == text[end]);
        assert(text.subrange(at, at + 2) =~= seq!['$', '{']);
        assert(occurs_at(text, seq!['$', '{'], at));
        assert(placeholder_at(text, at, end));
    }
}

/// Filling one placeholder leaves the others alone, and leaves values without placeholders alone.
proof fn lemma_filling()
    ensures
        forall|text: Seq<char>, mark: Seq<char>, value: Seq<char>|
            is_one_placeholder(text) && is_one_placeholder(mark) && text != mark
                ==> #[trigger] replaced(text, mark, value) == text,
        forall|mark: Seq<char>, value: Seq<char>|
            is_one_placeholder(mark) ==> #[trigger] replaced(mark, mark, value) == value,
        forall|text: Seq<char>, mark: Seq<char>, value: Seq<char>|
            !has_placeholder(text) && is_one_placeholder(mark) ==> #[trigger] replaced(
                text,
                mark,
                value,
            ) == text,
{
    assert forall|text: Seq<char>, mark: Seq<char>, value: Seq<char>|
        is_one_placeholder(text) && is_one_placeholder(mark) && text
            != mark implies #[trigger] replaced(text, mark, value) == text by {
        if contains(text, mark) {
            lemma_placeholders_differ(text, mark);
        }
        lemma_without_pattern(text, mark, value);
    }
    assert forall|mark: Seq<char>, value: Seq<char>|
        is_one_placeholder(mark) implies #[trigger] replaced(mark, mark, value) == value by {
        lemma_only_pattern(mark, value);
    }
    assert forall|text: Seq<char>, mark: Seq<char>, value: Seq<char>|
        !has_placeholder(text) && is_one_placeholder(mark) implies #[trigger] replaced(
        text,
        mark,
        value,
    ) == text by {
        lemma_no_placeholder_within(text, mark);
        lemma_without_pattern(text, mark, value);
    }
}

/// The placeholders that are known are placeholders, and no two of them are the same.
proof fn lemma_known_placeholders()
    ensures
        is_one_placeholder("${auth_player_name}"@),
        is_one_placeholder("${auth_session}"@),
        is_one_placeholder("${auth_access_token}"@),
        is_one_placeholder("${auth_uuid}"@),
        is_one_placeholder("${version_name}"@),
        is_one_placeholder("${natives_directory}"@),
        is_one_placeholder("${game_directory}"@),
        is_one_placeholder("${assets_root}"@),
        is_one_placeholder("${assets_index_name}"@),
        is_one_placeholder("${user_type}"@),
        is_one_placeholder("${version_type}"@),
        "${auth_player_name}"@.len() == 19,
        "${auth_session}"@.len() == 15 && "${auth_session}"@[2] == 'a',
        "${auth_access_token}"@.len() == 20 && "${auth_access_token}"@[3] == 'u',
        "${auth_uuid}"@.len() == 12 && "${auth_uuid}"@[2] == 'a',
        "${version_name}"@.len() == 15 && "${version_name}"@[2] == 'v' && "${version_name}"@[10]
            == 'n',
        "${natives_directory}"@.len() == 20 && "${natives_directory}"@[3] == 'a',
        "${game_directory}"@.len() == 17,
        "${assets_root}"@.len() == 14,
        "${assets_index_name}"@.len() == 20 && "${assets_index_name}"@[3] == 's',
        "${user_type}"@.len() == 12 && "${user_type}"@[2] == 'u',
        "${version_type}"@.len() == 15 && "${version_type}"@[2] == 'v' && "${version_type}"@[10]
            == 't',
{
    reveal_strlit("${auth_player_name}");
    reveal_strlit("${auth_session}");
    reveal_strlit("${auth_access_token}");
    reveal_strlit("${auth_uuid}");
    reveal_strlit("${version_name}");
    reveal_strlit("${natives_directory}");
    reveal_strlit("${game_directory}");
    reveal_strlit("${assets_root}");
    reveal_strlit("${assets_index_name}");
    reveal_strlit("${user_type}");
    reveal_strlit("${version_type}");
}

/// A placeholder that is known to stand for something.
pub open spec fn is_known(word: Seq<char>) -> bool {
    ||| word == "${auth_player_name}"@
    ||| word == "${auth_session}"@
    ||| word == "${auth_access_token}"@
    ||| word == "${auth_uuid}"@
    ||| word == "${version_name}"@
    ||| word == "${natives_directory}"@
    ||| word == "${game_directory}"@
    ||| word == "${assets_root}"@
    ||| word == "${assets_index_name}"@
    ||| word == "${user_type}"@
    ||| word == "${version_type}"@
}

/// A word that is one placeholder is filled with what the placeholder stands for, and a word
/// without placeholders or with an unknown one stays as it is.
pub proof fn law_placeholders_stand_for_their_values(word: Seq<char>, values: PlaceholdersView)
    ensures
        word == "${auth_player_name}"@ && !has_placeholder(values.player_name) ==> filled(
            word,
            values,
        ) == values.player_name,
        word == "${auth_access_token}"@ && !has_placeholder(values.auth_token) ==> filled(
            word,
            values,
        ) == values.auth_token,
        (word == "${auth_uuid}"@ || word == "${auth_session}"@) && !has_placeholder(values.uuid)
            ==> filled(word, values) == values.uuid,
        word == "${version_name}"@ && !has_placeholder(values.version_name) ==> filled(word, values)
            == values.version_name,
        word == "${natives_directory}"@ && !has_placeholder(values.natives_directory) ==> filled(
            word,
            values,
        ) == values.natives_directory,
        word == "${game_directory}"@ && !has_placeholder(values.game_directory) ==> filled(
            word,
            values,
        ) == values.game_directory,
        word == "${assets_root}"@ && !has_placeholder(values.assets_root) ==> filled(word, values)
            == values.assets_root,
        word == "${assets_index_name}"@ && !has_placeholder(values.assets_index_name) ==> filled(
            word,
            values,
        ) == values.assets_index_name,
        word == "${user_type}"@ ==> filled(word, values) == "msa"@,
        word == "${version_type}"@ ==> filled(word, values) == values.version_type,
        !has_placeholder(word) ==> filled(word, values) == word,
        is_one_placeholder(word) && !is_known(word) ==> filled(word, values) == word,
{
    lemma_filling();
    lemma_known_placeholders();
    assert(!has_placeholder("msa"@)) by {
        reveal_strlit("msa");
        if has_placeholder("msa"@) {
            let (open, close) = choose|open: int, close: int| placeholder_at("msa"@, open, close);
            assert("msa"@.subrange(open, open + 2)[0] == "msa"@[open]);
        }
    }
}

/// A text without placeholders is not changed by clearing.
pub proof fn law_clearing_keeps_plain_texts(text: Seq<char>)
    requires
        !has_placeholder(text),
    ensures
        cleared(text) == text,
{
    lemma_first_placeholder(text);
}

/// A word that is one placeholder is cleared to an empty pair of braces.
pub proof fn law_clearing_empties_placeholders(text: Seq<char>)
    requires
        is_one_placeholder(text),
    ensures
        cleared(text) == seq!['{', '}'],
{
    let end = text.len() - 1;
    assert(text.subrange(0, 2) =~= seq!['$', '{']);
    assert(placeholder_at(text, 0, end));
    lemma_first_placeholder(text);
    let (open, close) = first_placeholder(text)->0;
    assert(text.subrange(open, open + 2)[0] == text[open]);
    assert(open == 0 && close == end);
    assert(text.skip(close + 1) =~= Seq::empty());
    let none = Seq::<char>::empty();
    assert(!has_placeholder(none));
    law_clearing_keeps_plain_texts(none);
    assert(cleared(text) =~= seq!['{', '}']);
}

// ---------------------------------------------------------------------------------------------
// Game arguments
// ---------------------------------------------------------------------------------------------

/// How many of the first `count` game arguments are plain.
pub open spec fn plain_before(arguments: Seq<GameArgument>, count: int) -> int
    decreases count,
{
    if count <= 0 {
        0
    } else {
        plain_before(arguments, count - 1) + if arguments[count - 1] is Text {
            1int
        } else {
            0int
        }
    }
}

/// The plain ones among the first game arguments are as many as there are, each in its place.
proof fn lemma_plain_arguments(arguments: Seq<GameArgument>, count: int)
    requires
        0 <= count <= arguments.len(),
    ensures
        plain_game_arguments(arguments.take(count)).len() == plain_before(arguments, count),
        forall|i: int|
            0 <= i < count ==> ((#[trigger] arguments[i]) matches GameArgument::Text(text) ==> 0
                <= plain_before(arguments, i) < plain_before(arguments, count)
                && plain_game_arguments(arguments.take(count))[plain_before(arguments, i)]
                == text@),
    decreases count,
{
    if count > 0 {
        lemma_plain_arguments(arguments, count - 1);
        assert(arguments.take(count).drop_last() =~= arguments.take(count - 1));
        assert(arguments.take(count).last() == arguments[count - 1]);
    }
}

/// The plain ones among game arguments are all that are kept, in their order.
pub proof fn law_plain_arguments_are_kept(arguments: Seq<GameArgument>, argument: GameArgument)
    ensures
        plain_game_arguments(arguments.push(argument)) == match argument {
            GameArgument::Text(text) => plain_game_arguments(arguments).push(text@),
            GameArgument::Other => plain_game_arguments(arguments),
        },
        plain_game_arguments(Seq::empty()).len() == 0,
{
    assert(arguments.push(argument).drop_last() =~= arguments);
}

/// Where the version file lists game arguments, the plain ones are written in the order of the
/// list and nothing else is, whatever its single line holds.
pub proof fn law_listed_arguments_are_written(json: VersionJson, i: int)
    requires
        json.arguments is Some,
        json.arguments->0.game is Some,
        0 <= i < json.arguments->0.game->0@.len(),
    ensures
        ({
            let game = json.arguments->0.game->0@;
            let written = written_game_arguments(json);
            &&& written.len() == plain_before(game, game.len() as int)
            &&& game[i] matches GameArgument::Text(text) ==> 0 <= plain_before(game, i)
                < written.len() && written[plain_before(game, i)] == text@
        }),
{
    let game = json.arguments->0.game->0@;
    lemma_plain_arguments(game, game.len() as int);
    assert(game.take(game.len() as int) =~= game);
}

/// Where the version file lists no game arguments, the words of its single line are written, and
/// nothing where it has no line.
pub proof fn law_words_of_the_line_are_written(json: VersionJson)
    requires
        json.arguments is None || json.arguments->0.game is None,
    ensures
        json.minecraft_arguments matches Some(line) ==> written_game_arguments(json) == split(
            line@,
            seq![' '],
        ),
        json.minecraft_arguments is None ==> written_game_arguments(json).len() == 0,
{
    reveal_strlit(" ");
    assert(" "@ =~= seq![' ']);
}

/// Each game argument that is written comes out near the end of the command line, in its place:
/// the access token where it is the placeholder of the token, the identifier of the player where
/// it is that of the identifier or the session, and so on; an argument without placeholders as it
/// is, and a placeholder that is not known as an empty pair of braces.
pub proof fn law_game_arguments_are_handed_over(
    config: LauncherConfig,
    version: Seq<char>,
    player: Seq<char>,
    token: Seq<char>,
    uuid: Seq<char>,
    json: VersionJson,
    system: SystemInfo,
    paths: LaunchPathsView,
    k: int,
)
    requires
        0 <= k < written_game_arguments(json).len(),
    ensures
        ({
            let written = written_game_arguments(json);
            let args = launch_arguments(config, version, player, token, uuid, json, system, paths);
            let at = args.len() - 4 - written.len() + k;
            let word = written[k];
            let index = match json.asset_index {
                None => Seq::<char>::empty(),
                Some(index) => index.id@,
            };
            &&& 0 <= at < args.len()
            &&& !has_placeholder(word) ==> args[at] == word
            &&& word == "${auth_access_token}"@ && !has_placeholder(token) ==> args[at] == token
            &&& word == "${auth_uuid}"@ && !has_placeholder(uuid) ==> args[at] == uuid
            &&& word == "${auth_session}"@ && !has_placeholder(uuid) ==> args[at] == uuid
            &&& word == "${auth_player_name}"@ && !has_placeholder(player) ==> args[at] == player
            &&& word == "${version_name}"@ && !has_placeholder(version) ==> args[at] == version
            &&& word == "${user_type}"@ ==> args[at] == "msa"@
            &&& word == "${version_type}"@ && !has_placeholder(config.version_type@) ==> args[at]
                == config.version_type@
            &&& word == "${assets_index_name}"@ && !has_placeholder(index) ==> args[at] == index
            &&& word == "${natives_directory}"@ && !has_placeholder(
                slashed(paths.natives_directory),
            ) ==> args[at] == slashed(paths.natives_directory)
            &&& word == "${game_directory}"@ && !has_placeholder(slashed(paths.game_directory))
                ==> args[at] == slashed(paths.game_directory)
            &&& word == "${assets_root}"@ && !has_placeholder(slashed(paths.assets_root))
                ==> args[at] == slashed(paths.assets_root)
            &&& is_one_placeholder(word) && !is_known(word) ==> args[at] == seq!['{', '}']
        }),
{
    let written = written_game_arguments(json);
    let raw = raw_arguments(config, version, player, token, uuid, json, system, paths);
    let args = launch_arguments(config, version, player, token, uuid, json, system, paths);
    let at = args.len() - 4 - written.len() + k;
    let values = placeholder_values(
        config,
        version,
        player,
        token,
        uuid,
        json,
        paths,
    );
    let word = written[k];
    law_placeholders_stand_for_their_values(word, values);
    assert(raw.len() == args.len());
    assert(raw[at] == filled(word, values));
    assert(args[at] == cleared(filled(word, values)));
    if !has_placeholder(filled(word, values)) {
        law_clearing_keeps_plain_texts(filled(word, values));
    }
    if is_one_placeholder(word) && !is_known(word) {
        law_clearing_empties_placeholders(word);
    }
    assert(!has_placeholder("msa"@)) by {
        reveal_strlit("msa");
        if has_placeholder("msa"@) {
            let (open, close) = choose|open: int, close: int| placeholder_at("msa"@, open, close);
            assert("msa"@.subrange(open, open + 2)[0] == "msa"@[open]);
        }
    }
}

// ---------------------------------------------------------------------------------------------
// The rest of the command line
// ---------------------------------------------------------------------------------------------

/// A path with forward slashes is the path with each backslash exchanged, and with nothing else
/// changed.
pub proof fn law_slashed_paths_differ_in_slashes_only(path: Seq<char>)
    ensures
        slashed(path).len() == path.len(),
        forall|i: int|
            0 <= i < path.len() ==> #[trigger] slashed(path)[i] == if path[i] == '\\' {
                '/'
            } else {
                path[i]
            },
{
    reveal_strlit("\\");
    reveal_strlit("/");
    assert("\\"@ =~= seq!['\\']);
    assert("/"@ =~= seq!['/']);
    law_exchanging_characters_keeps_the_rest(path, '\\', '/');
}

/// A text without a dollar sign has no placeholder.
pub proof fn lemma_no_dollar(text: Seq<char>)
    requires
        !text.contains('$'),
    ensures
        !has_placeholder(text),
{
    if has_placeholder(text) {
        let (open, close) = choose|open: int, close: int| placeholder_at(text, open, close);
        assert(text.subrange(open, open + 2)[0] == text[open]);
    }
}

/// How many arguments for the virtual machine depend on the system.
spec fn system_flags(system: SystemInfo) -> int {
    (if system.kind is Macos {
        1int
    } else {
        0int
    }) + (if system.architecture is Some && contains(system.architecture->0@, "x86"@) {
        1int
    } else {
        0int
    }) + (if system.kind is Windows {
        1int
    } else {
        0int
    })
}

/// The command line begins with the memory, then has the flags of the system, then those of every
/// system.
pub proof fn law_command_line_begins_with_the_machine(
    config: LauncherConfig,
    version: Seq<char>,
    player: Seq<char>,
    token: Seq<char>,
    uuid: Seq<char>,
    json: VersionJson,
    system: SystemInfo,
    paths: LaunchPathsView,
)
    ensures
        ({
            let args = launch_arguments(config, version, player, token, uuid, json, system, paths);
            let flags = (if system.kind is Macos {
                1int
            } else {
                0int
            }) + (if system.architecture is Some && contains(
                system.architecture->0@,
                "x86"@,
            ) {
                1int
            } else {
                0int
            }) + (if system.kind is Windows {
                1int
            } else {
                0int
            });
            let x86 = system.architecture is Some && contains(system.architecture->0@, "x86"@);
            &&& args.len() >= 15 + flags
            &&& args[0] == "-Xmn768m"@
            &&& !config.max_memory@.contains('$') ==> args[1] == "-Xmx"@ + config.max_memory@ + "m"@
            &&& system.kind is Macos ==> args[2] == "-XstartOnFirstThread"@
            &&& x86 ==> args[if system.kind is Macos {
                3int
            } else {
                2int
            }] == "-Xss1M"@
            &&& system.kind is Windows ==> args[1 + flags]
                == "-XX:HeapDumpPath=MojangTricksIntelDriversForPerformance_javaw.exe_minecraft.exe.heapdump"@
            &&& args[2 + flags] == "-XX:+UseG1GC"@
            &&& args[3 + flags] == "-XX:-UseAdaptiveSizePolicy"@
            &&& args[4 + flags] == "-XX:-OmitStackTraceInFastThrow"@
            &&& args[5 + flags] == "-Djdk.lang.Process.allowAmbiguousCommands=true"@
            &&& args[6 + flags] == "-Dfml.ignoreInvalidMinecraftCertificates=True"@
            &&& args[7 + flags] == "-Dfml.ignorePatchDiscrepancies=True"@
        }),
{
    let raw = raw_arguments(config, version, player, token, uuid, json, system, paths);
    let args = launch_arguments(config, version, player, token, uuid, json, system, paths);
    let machine = machine_arguments(config, system);
    assert(machine.len() == 8 + system_flags(system));
    assert forall|i: int| 0 <= i < machine.len() implies #[trigger] args[i] == cleared(
        machine[i],
    ) by {
        assert(raw[i] == machine[i]);
    }
    reveal_strlit("-Xmn768m");
    reveal_strlit("-Xmx");
    reveal_strlit("m");
    reveal_strlit("-XstartOnFirstThread");
    reveal_strlit("-Xss1M");
    reveal_strlit(
        "-XX:HeapDumpPath=MojangTricksIntelDriversForPerformance_javaw.exe_minecraft.exe.heapdump",
    );
    reveal_strlit("-XX:+UseG1GC");
    reveal_strlit("-XX:-UseAdaptiveSizePolicy");
    reveal_strlit("-XX:-OmitStackTraceInFastThrow");
    reveal_strlit("-Djdk.lang.Process.allowAmbiguousCommands=true");
    reveal_strlit("-Dfml.ignoreInvalidMinecraftCertificates=True");
    reveal_strlit("-Dfml.ignorePatchDiscrepancies=True");
    assert forall|text: Seq<char>| !text.contains('$') implies #[trigger] cleared(text) == text by {
        lemma_no_dollar(text);
        law_clearing_keeps_plain_texts(text);
    }
    let memory = "-Xmx"@ + config.max_memory@ + "m"@;
    if !config.max_memory@.contains('$') {
        assert forall|i: int| 0 <= i < memory.len() implies memory[i] != '$' by {
            if 4 <= i < 4 + config.max_memory@.len() {
                assert(memory[i] == config.max_memory@[i - 4]);
            }
        }
    }
}

/// The command line ends with the class path, the main class, the game arguments and the size of
/// the window.
pub proof fn law_command_line_ends_with_the_game(
    config: LauncherConfig,
    version: Seq<char>,
    player: Seq<char>,
    token: Seq<char>,
    uuid: Seq<char>,
    json: VersionJson,
    system: SystemInfo,
    paths: LaunchPathsView,
)
    ensures
        ({
            let args = launch_arguments(config, version, player, token, uuid, json, system, paths);
            let start = args.len() - 7 - written_game_arguments(json).len();
            &&& 0 <= start
            &&& args[start] == "-cp"@
            &&& !has_placeholder(json.main_class@) ==> args[start + 2] == json.main_class@
            &&& args[args.len() - 4] == "--width"@
            &&& args[args.len() - 3] == "873"@
            &&& args[args.len() - 2] == "--height"@
            &&& args[args.len() - 1] == "486"@
        }),
{
    let raw = raw_arguments(config, version, player, token, uuid, json, system, paths);
    reveal_strlit("-cp");
    reveal_strlit("--width");
    reveal_strlit("873");
    reveal_strlit("--height");
    reveal_strlit("486");
    lemma_no_dollar("-cp"@);
    lemma_no_dollar("--width"@);
    lemma_no_dollar("873"@);
    lemma_no_dollar("--height"@);
    lemma_no_dollar("486"@);
    law_clearing_keeps_plain_texts("-cp"@);
    law_clearing_keeps_plain_texts("--width"@);
    law_clearing_keeps_plain_texts("873"@);
    law_clearing_keeps_plain_texts("--height"@);
    law_clearing_keeps_plain_texts("486"@);
    if !has_placeholder(json.main_class@) {
        law_clearing_keeps_plain_texts(json.main_class@);
    }
}

/// A path that can stand on the class path: it has no separator and no dollar sign.
pub open spec fn fits_class_path(path: Seq<char>) -> bool {
    !path.contains(';') && !path.contains('$')
}

/// The class path holds the files of the libraries, the archive of the version and the wrapper, in
/// this order and with semicolons between them.
pub proof fn law_class_path_can_be_read_back(
    config: LauncherConfig,
    version: Seq<char>,
    player: Seq<char>,
    token: Seq<char>,
    uuid: Seq<char>,
    json: VersionJson,
    system: SystemInfo,
    paths: LaunchPathsView,
)
    requires
        forall|i: int|
            0 <= i < paths.library_files.len() ==> fits_class_path(
                #[trigger] paths.library_files[i],
            ),
        fits_class_path(paths.version_jar),
        fits_class_path(config.wrapper_path@),
    ensures
        ({
            let args = launch_arguments(config, version, player, token, uuid, json, system, paths);
            let entries = split(
                args[args.len() - 6 - written_game_arguments(json).len()],
                seq![';'],
            );
            let count = paths.library_files.len() as int;
            &&& entries.len() == count + 2
            &&& forall|i: int|
                0 <= i < count ==> #[trigger] entries[i] == slashed(paths.library_files[i])
            &&& entries[count] == slashed(paths.version_jar)
            &&& entries[count + 1] == slashed(config.wrapper_path@)
        }),
{
    let raw = raw_arguments(config, version, player, token, uuid, json, system, paths);
    let args = launch_arguments(config, version, player, token, uuid, json, system, paths);
    let at = args.len() - 6 - written_game_arguments(json).len();
    let pieces = paths.library_files.map_values(|file: Seq<char>| slashed(file)).push(
        slashed(paths.version_jar),
    ).push(slashed(config.wrapper_path@));
    assert forall|path: Seq<char>| fits_class_path(path) implies fits_class_path(
        #[trigger] slashed(path),
    ) by {
        law_slashed_paths_differ_in_slashes_only(path);
        let made = slashed(path);
        assert forall|i: int| 0 <= i < made.len() implies made[i] != ';' && made[i] != '$' by {
            assert(path.contains(path[i]));
        }
    }
    assert forall|i: int| 0 <= i < pieces.len() implies fits_class_path(#[trigger] pieces[i]) by {
        if i < paths.library_files.len() {
            assert(fits_class_path(paths.library_files[i]));
            assert(pieces[i] == slashed(paths.library_files[i]));
        }
    }
    reveal_strlit(";");
    assert(";"@ =~= seq![';']);
    law_split_undoes_join(pieces, ';');
    lemma_joined_characters(pieces, seq![';'], '$');
    assert(raw[at] == class_path(config, paths));
    lemma_no_dollar(class_path(config, paths));
    law_clearing_keeps_plain_texts(class_path(config, paths));
}

/// The argument that names the logging configuration comes right behind the arguments for the
/// virtual machine, where there is a configuration.
pub proof fn law_log_configuration_is_named(
    config: LauncherConfig,
    version: Seq<char>,
    player: Seq<char>,
    token: Seq<char>,
    uuid: Seq<char>,
    json: VersionJson,
    system: SystemInfo,
    paths: LaunchPathsView,
)
    requires
        paths.log_configuration is Some,
        !has_placeholder(
            "-Dlog4j.configurationFile=file:///"@ + replaced(
                slashed(paths.log_configuration->0),
                seq![' '],
                seq!['%', '2', '0'],
            ),
        ),
    ensures
        ({
            let flags = (if system.kind is Macos {
                1int
            } else {
                0int
            }) + (if system.architecture is Some && contains(
                system.architecture->0@,
                "x86"@,
            ) {
                1int
            } else {
                0int
            }) + (if system.kind is Windows {
                1int
            } else {
                0int
            });
            launch_arguments(config, version, player, token, uuid, json, system, paths)[8 + flags]
                == "-Dlog4j.configurationFile=file:///"@ + replaced(
                slashed(paths.log_configuration->0),
                seq![' '],
                seq!['%', '2', '0'],
            )
        }),
{
    let raw = raw_arguments(config, version, player, token, uuid, json, system, paths);
    let at = 8 + system_flags(system);
    reveal_strlit(" ");
    reveal_strlit("%20");
    assert(" "@ =~= seq![' ']);
    assert("%20"@ =~= seq!['%', '2', '0']);
    assert(machine_arguments(config, system).len() == at);
    assert(raw[at] == log_arguments(paths)[0]);
    law_clearing_keeps_plain_texts(raw[at]);
}

/// A plain argument of the version file sets `key`.
spec fn file_sets(json: VersionJson, key: Seq<char>) -> bool {
    json.arguments is Some && json.arguments->0.jvm is Some && exists|i: int|
        0 <= i < json.arguments->0.jvm->0@.len() && (
        #[trigger] json.arguments->0.jvm->0@[i] matches JvmArgument::Text(text) && before_first(
            text@,
            seq!['='],
        ) == key)
}

/// Between the logging configuration and the class path stand the parameters that the launcher
/// sets: each of them just where the version file does not set its key, and nothing else.
pub proof fn law_parameters_are_set_once(
    config: LauncherConfig,
    version: Seq<char>,
    player: Seq<char>,
    token: Seq<char>,
    uuid: Seq<char>,
    json: VersionJson,
    system: SystemInfo,
    paths: LaunchPathsView,
)
    requires
        !has_placeholder("-Dos.name="@ + system.name@),
        !has_placeholder("-Dos.version="@ + system.version@),
        !has_placeholder("-Djava.library.path="@ + slashed(paths.natives_directory)),
        !has_placeholder("-DlibraryDirectory="@ + slashed(paths.libraries_directory)),
        !has_placeholder("-Dminecraft.launcher.version="@ + config.launcher_version@),
    ensures
        ({
            let args = launch_arguments(config, version, player, token, uuid, json, system, paths);
            let flags = (if system.kind is Macos {
                1int
            } else {
                0int
            }) + (if system.architecture is Some && contains(
                system.architecture->0@,
                "x86"@,
            ) {
                1int
            } else {
                0int
            }) + (if system.kind is Windows {
                1int
            } else {
                0int
            });
            let sets = |key: Seq<char>|
                json.arguments is Some && json.arguments->0.jvm is Some && exists|i: int|
                    0 <= i < json.arguments->0.jvm->0@.len() && (
                    #[trigger] json.arguments->0.jvm->0@[i] matches JvmArgument::Text(text)
                        && before_first(text@, seq!['=']) == key);
            let from = 8 + flags + if paths.log_configuration is Some {
                1int
            } else {
                0int
            };
            let to = args.len() - 7 - written_game_arguments(json).len();
            let set = args.subrange(from, to);
            &&& set.contains("-Dos.name="@ + system.name@) <==> !sets("-Dos.name"@)
            &&& set.contains("-Dos.version="@ + system.version@) <==> !sets("-Dos.version"@)
            &&& set.contains("-Djava.library.path="@ + slashed(paths.natives_directory))
                <==> !sets("-Djava.library.path"@)
            &&& set.contains("-DlibraryDirectory="@ + slashed(paths.libraries_directory))
                <==> !sets("-DlibraryDirectory"@)
            &&& set.contains("-Dminecraft.launcher.brand=\"Rhythmic Tool Launcher\""@)
                <==> !sets("-Dminecraft.launcher.brand"@)
            &&& set.contains("-Dminecraft.launcher.version="@ + config.launcher_version@)
                <==> !sets("-Dminecraft.launcher.version"@)
            &&& set.len() <= 6
            &&& forall|i: int|
                0 <= i < set.len() ==> {
                    ||| #[trigger] set[i] == "-Dos.name="@ + system.name@
                    ||| set[i] == "-Dos.version="@ + system.version@
                    ||| set[i] == "-Djava.library.path="@ + slashed(paths.natives_directory)
                    ||| set[i] == "-DlibraryDirectory="@ + slashed(paths.libraries_directory)
                    ||| set[i] == "-Dminecraft.launcher.brand=\"Rhythmic Tool Launcher\""@
                    ||| set[i] == "-Dminecraft.launcher.version="@ + config.launcher_version@
                }
        }),
{
    let raw = raw_arguments(config, version, player, token, uuid, json, system, paths);
    let args = launch_arguments(config, version, player, token, uuid, json, system, paths);
    let from = 8 + system_flags(system) + if paths.log_configuration is Some {
        1int
    } else {
        0int
    };
    let to = args.len() - 7 - written_game_arguments(json).len();
    let fixed = fixed_parameters(config, system, paths);
    let unset = unset_parameters(fixed, json);
    assert(machine_arguments(config, system).len() == 8 + system_flags(system));
    assert(to - from == unset.len());
    lemma_unset_length(fixed, json);
    assert(!has_placeholder("-Dminecraft.launcher.brand=\"Rhythmic Tool Launcher\""@)) by {
        reveal_strlit("-Dminecraft.launcher.brand=\"Rhythmic Tool Launcher\"");
        lemma_no_dollar("-Dminecraft.launcher.brand=\"Rhythmic Tool Launcher\""@);
    }
    assert forall|i: int| 0 <= i < fixed.len() implies !has_placeholder(#[trigger] fixed[i]) by {
        assert(i == 0 || i == 1 || i == 2 || i == 3 || i == 4 || i == 5);
    }
    assert forall|i: int| 0 <= i < unset.len() implies args[from + i] == #[trigger] unset[i] by {
        assert(raw[from + i] == unset[i]);
        law_version_file_overrides_parameters(fixed, json, unset[i]);
        assert(unset.contains(unset[i]));
        law_clearing_keeps_plain_texts(unset[i]);
    }
    assert(args.subrange(from, to) =~= unset);
    assert forall|i: int| 0 <= i < unset.len() implies fixed.contains(#[trigger] unset[i]) by {
        law_version_file_overrides_parameters(fixed, json, unset[i]);
        assert(unset.contains(unset[i]));
    }
    reveal_strlit("=");
    assert("="@ =~= seq!['=']);
    assert(fixed.len() == 6);
    lemma_literal_keys();
    let brand = "-Dminecraft.launcher.brand=\"Rhythmic Tool Launcher\""@;
    lemma_parameter(fixed, json, 0, "-Dos.name"@, system.name@);
    lemma_parameter(fixed, json, 1, "-Dos.version"@, system.version@);
    lemma_parameter(fixed, json, 2, "-Djava.library.path"@, slashed(paths.natives_directory));
    lemma_parameter(fixed, json, 3, "-DlibraryDirectory"@, slashed(paths.libraries_directory));
    lemma_parameter(fixed, json, 4, "-Dminecraft.launcher.brand"@, brand.skip(27));
    lemma_parameter(fixed, json, 5, "-Dminecraft.launcher.version"@, config.launcher_version@);
}

/// The keys of the fixed parameters, and what each begins with.
proof fn lemma_literal_keys()
    ensures
        "-Dos.name="@ == "-Dos.name"@ + seq!['='] && !"-Dos.name"@.contains('='),
        "-Dos.version="@ == "-Dos.version"@ + seq!['='] && !"-Dos.version"@.contains('='),
        "-Djava.library.path="@ == "-Djava.library.path"@ + seq!['=']
            && !"-Djava.library.path"@.contains('='),
        "-DlibraryDirectory="@ == "-DlibraryDirectory"@ + seq!['=']
            && !"-DlibraryDirectory"@.contains('='),
        "-Dminecraft.launcher.version="@ == "-Dminecraft.launcher.version"@ + seq!['=']
            && !"-Dminecraft.launcher.version"@.contains('='),
        "-Dminecraft.launcher.brand=\"Rhythmic Tool Launcher\""@ == "-Dminecraft.launcher.brand"@
            + seq!['='] + "-Dminecraft.launcher.brand=\"Rhythmic Tool Launcher\""@.skip(27)
            && !"-Dminecraft.launcher.brand"@.contains('='),
{
    reveal_strlit("-Dos.name");
    reveal_strlit("-Dos.name=");
    reveal_strlit("-Dos.version");
    reveal_strlit("-Dos.version=");
    reveal_strlit("-Djava.library.path");
    reveal_strlit("-Djava.library.path=");
    reveal_strlit("-DlibraryDirectory");
    reveal_strlit("-DlibraryDirectory=");
    reveal_strlit("-Dminecraft.launcher.brand");
    reveal_strlit("-Dminecraft.launcher.brand=\"Rhythmic Tool Launcher\"");
    reveal_strlit("-Dminecraft.launcher.version");
    reveal_strlit("-Dminecraft.launcher.version=");
}

/// No parameter is set twice.
proof fn lemma_unset_length(parameters: Seq<Seq<char>>, json: VersionJson)
    ensures
        unset_parameters(parameters, json).len() <= parameters.len(),
    decreases parameters.len(),
{
    if parameters.len() > 0 {
        lemma_unset_length(parameters.drop_last(), json);
    }
}

/// A parameter with a known key is set just where the version file does not set the key.
proof fn lemma_parameter(
    fixed: Seq<Seq<char>>,
    json: VersionJson,
    at: int,
    key: Seq<char>,
    value: Seq<char>,
)
    requires
        0 <= at < fixed.len(),
        fixed[at] == key + seq!['='] + value,
        !key.contains('='),
    ensures
        unset_parameters(fixed, json).contains(fixed[at]) <==> !file_sets(json, key),
{
    reveal_strlit("=");
    assert("="@ =~= seq!['=']);
    lemma_first_separator(key, '=', value);
    law_version_file_overrides_parameters(fixed, json, fixed[at]);
    assert(fixed.contains(fixed[at]));
    let listed = listed_jvm_arguments(json);
    if file_sets(json, key) {
        let jvm = json.arguments->0.jvm->0@;
        let i = choose|i: int|
            0 <= i < jvm.len() && (#[trigger] jvm[i] matches JvmArgument::Text(text)
                && before_first(text@, seq!['=']) == key);
        assert(sets_key(listed[i], key));
    }
    if key_is_set(json, key) {
        let i = choose|i: int| 0 <= i < listed.len() && sets_key(#[trigger] listed[i], key);
        assert(listed[i] == json.arguments->0.jvm->0@[i]);
    }
}

// ---------------------------------------------------------------------------------------------
// Placeholders within words
// ---------------------------------------------------------------------------------------------

/// A word with one dollar sign holds no other placeholder than the one that stands in it.
proof fn lemma_other_placeholders(
    front: Seq<char>,
    mark: Seq<char>,
    back: Seq<char>,
    other: Seq<char>,
)
    requires
        !front.contains('$'),
        !back.contains('$'),
        is_one_placeholder(mark),
        is_one_placeholder(other),
        mark != other,
    ensures
        !contains(front + mark + back, other),
{
    let text = front + mark + back;
    if contains(text, other) {
        let at = choose|at: int| occurs_at(text, other, at);
        let part = text.subrange(at, at + other.len());
        assert(part[0] == text[at]);
        if at < front.len() {
            assert(front.contains(front[at]));
        } else if at >= front.len() + mark.len() {
            assert(back.contains(back[at - front.len() - mark.len()]));
        }
        assert(at == front.len());
        if other.len() < mark.len() {
            assert(part[other.len() - 1] == mark[other.len() - 1]);
        } else if other.len() > mark.len() {
            assert(part[mark.len() - 1] == mark[mark.len() - 1]);
        } else {
            assert(part =~= mark);
        }
    }
}

/// A placeholder within a word is exchanged, and the word around it is kept.
proof fn lemma_placeholder_within(
    front: Seq<char>,
    mark: Seq<char>,
    back: Seq<char>,
    value: Seq<char>,
)
    requires
        !front.contains('$'),
        !back.contains('$'),
        is_one_placeholder(mark),
    ensures
        replaced(front + mark + back, mark, value) == front + value + back,
{
    let text = front + mark + back;
    let end = front.len() as int;
    assert(text.subrange(end, end + mark.len()) =~= mark);
    assert(occurs_at(text, mark, end));
    lemma_next_occurrence(text, mark, 0);
    let at = next_occurrence(text, mark, 0)->0;
    assert(text.subrange(at, at + mark.len())[0] == text[at]);
    if at < end {
        assert(front.contains(front[at]));
    }
    assert(at == end);
    assert(text.take(at) =~= front);
    assert(text.skip(at + mark.len()) =~= back);
    lemma_no_dollar(back);
    lemma_no_placeholder_within(back, mark);
    lemma_without_pattern(back, mark, value);
    lemma_joined_front(front, seq![back], value);
    assert(split(text, mark) == seq![front] + seq![back]);
    assert(joined(seq![back], value) == back);
}

/// A known placeholder that stands within a word is filled with what it stands for, and the rest of
/// the word is kept.
pub proof fn law_placeholders_are_filled_within_words(
    front: Seq<char>,
    mark: Seq<char>,
    back: Seq<char>,
    values: PlaceholdersView,
)
    requires
        !front.contains('$'),
        !back.contains('$'),
        !values.player_name.contains('$'),
        !values.auth_token.contains('$'),
        !values.uuid.contains('$'),
        !values.version_name.contains('$'),
        !values.natives_directory.contains('$'),
        !values.game_directory.contains('$'),
        !values.assets_root.contains('$'),
        !values.assets_index_name.contains('$'),
        !values.version_type.contains('$'),
    ensures
        ({
            let word = front + mark + back;
            &&& mark == "${auth_player_name}"@ ==> filled(word, values) == front
                + values.player_name + back
            &&& mark == "${auth_access_token}"@ ==> filled(word, values) == front
                + values.auth_token + back
            &&& mark == "${auth_uuid}"@ || mark == "${auth_session}"@ ==> filled(word, values)
                == front + values.uuid + back
            &&& mark == "${version_name}"@ ==> filled(word, values) == front + values.version_name
                + back
            &&& mark == "${natives_directory}"@ ==> filled(word, values) == front
                + values.natives_directory + back
            &&& mark == "${game_directory}"@ ==> filled(word, values) == front
                + values.game_directory + back
            &&& mark == "${assets_root}"@ ==> filled(word, values) == front + values.assets_root
                + back
            &&& mark == "${assets_index_name}"@ ==> filled(word, values) == front
                + values.assets_index_name + back
            &&& mark == "${user_type}"@ ==> filled(word, values) == front + "msa"@ + back
            &&& mark == "${version_type}"@ ==> filled(word, values) == front + values.version_type
                + back
        }),
{
    lemma_known_placeholders();
    reveal_strlit("msa");
    let word = front + mark + back;
    if is_known(mark) {
        assert forall|other: Seq<char>, value: Seq<char>|
            is_one_placeholder(other) && other != mark implies #[trigger] replaced(
            word,
            other,
            value,
        ) == word by {
            lemma_other_placeholders(front, mark, back, other);
            lemma_without_pattern(word, other, value);
        }
        assert forall|value: Seq<char>| #[trigger] replaced(word, mark, value) == front + value
            + back by {
            lemma_placeholder_within(front, mark, back, value);
        }
        assert forall|value: Seq<char>, other: Seq<char>, more: Seq<char>|
            !value.contains('$') && is_one_placeholder(other) implies #[trigger] replaced(
            front + value + back,
            other,
            more,
        ) == front + value + back by {
            let made = front + value + back;
            assert forall|i: int| 0 <= i < made.len() implies made[i] != '$' by {
                if i < front.len() {
                    assert(front.contains(front[i]));
                } else if i < front.len() + value.len() {
                    assert(value.contains(value[i - front.len()]));
                } else {
                    assert(back.contains(back[i - front.len() - value.len()]));
                }
            }
            lemma_no_dollar(made);
            lemma_no_placeholder_within(made, other);
            lemma_without_pattern(made, other, more);
        }
    }
}

/// A placeholder that is left within a word is cleared, and the rest of the word is kept.
pub proof fn law_placeholders_are_cleared_within_words(
    front: Seq<char>,
    mark: Seq<char>,
    back: Seq<char>,
)
    requires
        !front.contains('$'),
        !back.contains('$'),
        is_one_placeholder(mark),
    ensures
        cleared(front + mark + back) == front + seq!['{', '}'] + back,
{
    let text = front + mark + back;
    let start = front.len() as int;
    let end = start + mark.len() - 1;
    assert(text.subrange(start, start + 2) =~= seq!['$', '{']);
    assert(placeholder_at(text, start, end));
    lemma_first_placeholder(text);
    let (open, close) = first_placeholder(text)->0;
    assert(text.subrange(open, open + 2)[0] == text[open]);
    if open < start {
        assert(front.contains(front[open]));
    } else if open >= start + mark.len() {
        assert(back.contains(back[open - start - mark.len()]));
    }
    assert(open == start);
    if close < end {
        assert(text[close] == mark[close - start]);
    } else if close > end {
        assert(text[end] == '}');
    }
    assert(text.take(open) =~= front);
    assert(text.skip(close + 1) =~= back);
    lemma_no_dollar(back);
    law_clearing_keeps_plain_texts(back);
}

} // verus!
