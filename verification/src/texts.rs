use vstd::prelude::*;

verus! {

/// The one-line documentation of `--filter-search`.
pub const HELP_FILTER_SEARCH: &'static str = "Show only items matching the search in listing";

/// The long documentation of `--filter-search`.
pub const LONG_HELP_FILTER_SEARCH: &'static str = "Show only items matching the current search query in the listing. This overrides the --no-filter-search option. You can toggle the filtering with the keyboard shortcut Alt-f by default.";

/// The one-line documentation of `--no-filter-search`.
pub const HELP_NO_FILTER_SEARCH: &'static str = "Show all items in the listing even when searching (default)";

/// The long documentation of `--no-filter-search`.
pub const LONG_HELP_NO_FILTER_SEARCH: &'static str = "Show all items in the listing even when searching (default). This overrides the --filter-search option. You can toggle the filtering with the keyboard shortcut Alt-f by default.";

/// The one-line documentation of `--files`.
pub const HELP_FILES: &'static str = "How to handle files while searching";

/// The long documentation of `--files`.
pub const LONG_HELP_FILES: &'static str = "How to handle files while searching. If 'ignore', both files and folders are listed but searching matches only folders. If 'hide', files are hidden. If 'match', files are also matched while searching. Note that currently, fogo cannot do anything with files, so 'ignore' is the default behavior.";

/// What stands for the value of `--files` in the documentation.
pub const VALUE_NAME_FILES: &'static str = "'ignore', 'i', 'hide', 'h', 'match', or 'm'";

/// The one-line documentation of `--case-sensitive`.
pub const HELP_CASE_SENSITIVE: &'static str = "Case sensitive search";

/// The long documentation of `--case-sensitive`, before the list of the flags that it overrides.
pub const LONG_HELP_CASE_SENSITIVE: &'static str = "Enable case-sensitive search.";

/// The one-line documentation of `--ignore-case`.
pub const HELP_IGNORE_CASE: &'static str = "Ignore case when searching";

/// The long documentation of `--ignore-case`, before the list of the flags that it overrides.
pub const LONG_HELP_IGNORE_CASE: &'static str = "Enable case-insensitive search.";

/// The one-line documentation of `--smart-case`.
pub const HELP_SMART_CASE: &'static str = "Smart case search (default)";

/// The long documentation of `--smart-case`, before the list of the flags that it overrides.
pub const LONG_HELP_SMART_CASE: &'static str = "Enable smart-case search. If the search query contains only lowercase letters, search case insensitively. Otherwise search case sensitively. This is the default search mode.";

/// The one-line documentation of `--gap-search`.
pub const HELP_GAP_SEARCH: &'static str = "Match the search from the beginning, but allow gaps (default)";

/// The long documentation of `--gap-search`, before the list of the flags that it overrides.
pub const LONG_HELP_GAP_SEARCH: &'static str = "When searching, match items that start with the same character as the search query, but allow gaps between the search characters. For example, searching for \"do\" would match \"DesktOp\", \"DOcuments\", and \"DOwnloads\", while searching for \"dt\" would match \"DeskTop\" and \"DocumenTs\" but not \"downloads\", and searching for \"es\" would match none of the above. This is the default behavior.";

/// The one-line documentation of `--gap-search-anywhere`.
pub const HELP_GAP_SEARCH_ANYWHERE: &'static str = "Match the search anywhere, and allow gaps";

/// The long documentation of `--gap-search-anywhere`, before the list of the flags that it overrides.
pub const LONG_HELP_GAP_SEARCH_ANYWHERE: &'static str = "When searching, allow the search characters to appear anywhere in a file/folder name, possibly with gaps between them. For example, searching for \"do\" would match \"DesktOp\", \"DOcuments\", and \"DOwnloads\", while searching for \"es\" would match \"dESktop\" and \"documEntS\", but not \"downloads\".";

/// The one-line documentation of `--normal-search`.
pub const HELP_NORMAL_SEARCH: &'static str = "Match the search from the beginning, and do not allow gaps";

/// The long documentation of `--normal-search`, before the list of the flags that it overrides.
pub const LONG_HELP_NORMAL_SEARCH: &'static str = "Match only consecutive characters, and only from the beginning of the folder or file name. For example, searching for \"do\" would match \"DOcuments\" and \"DOwnloads\", but not \"desktop\".";

/// The one-line documentation of `--normal-search-anywhere`.
pub const HELP_NORMAL_SEARCH_ANYWHERE: &'static str = "Match search anywhere, but do not allow gaps";

/// The long documentation of `--normal-search-anywhere`, before the list of the flags that it overrides.
pub const LONG_HELP_NORMAL_SEARCH_ANYWHERE: &'static str = "Match only consecutive characters, but they may appear anywhere in file or folder name, not just the beginning. For example, searching for \"e\" would match \"documEnts\" and \"dEsktop\", but not \"downloads\".";

/// The one-line documentation of `--map`.
pub const HELP_MAP: &'static str = "Map one or more keyboard shortcuts. See full help (with --help) for further details.";

/// What stands for the value of `--map` in the documentation.
pub const VALUE_NAME_MAP: &'static str = "MAPPING";

/// The one-line documentation of `--clear-default-keymap`.
pub const HELP_CLEAR_DEFAULT_KEYMAP: &'static str = "Do not use the default keyboard mapping.";

/// The long documentation of `--clear-default-keymap`.
pub const LONG_HELP_CLEAR_DEFAULT_KEYMAP: &'static str = "Do not use the default keyboard mapping, so that all shortcuts have to be manually created from scratch using the --map/-m option. If no mapping for Exit is provided, fogo will not run.";

/// The one-line documentation of `--sort`.
pub const HELP_SORT: &'static str = "Select sorting mode";

/// The long documentation of `--sort`.
pub const LONG_HELP_SORT: &'static str = "Choose whether to sort the listing by name, or the time of creation or modification. You can change the sort order with the keyboard shortcut Alt-s by default.";

/// What stands for the value of `--sort` in the documentation.
pub const VALUE_NAME_SORT: &'static str = "'name', 'created', or 'modified'";

/// The one-line documentation of `--autocd-timeout`.
pub const HELP_AUTOCD_TIMEOUT: &'static str = "Timeout for auto-cd when there's only one match, in milliseconds. Use 'off' to disable.";

/// The long documentation of `--autocd-timeout`.
pub const LONG_HELP_AUTOCD_TIMEOUT: &'static str = "If the current search matches only one folder, automatically change to that folder after this many milliseconds. If the value is 'off', automatic cding is disabled, and you have to manually enter the folder. Setting the timeout to zero is not recommended, because it makes navigation confusing.";

/// What stands for the value of `--autocd-timeout` in the documentation.
pub const VALUE_NAME_AUTOCD_TIMEOUT: &'static str = "TIMEOUT or 'off'";

/// The one-line documentation of `--history-file`.
pub const HELP_HISTORY_FILE: &'static str = "Save history to the file at this absolute path. Set to empty to disable.";

/// The long documentation of `--history-file`.
pub const LONG_HELP_HISTORY_FILE: &'static str = "Save a history of visited folders in this file in JSON format. Should be an absolute path. Set to empty to disable saving history. If not provided, defaults to '$CACHE_DIR/fogo/history.json', where $CACHE_DIR is the cache directory, i.e. $XDG_CACHE_HOME or ~/.cache. Note that the history file reveals parts of your folder structure if it can be read by someone else.";

/// What stands for the value of `--history-file` in the documentation.
pub const VALUE_NAME_HISTORY_FILE: &'static str = "FILE or ''";

/// The one-line documentation of `--mouse`.
pub const HELP_MOUSE: &'static str = "Enable mouse navigation";

/// The long documentation of `--mouse`.
pub const LONG_HELP_MOUSE: &'static str = "Enable mouse navigation. If enabled, you can browse by clicking around with the mouse. This is off by default to maximize compatibility.";

/// What stands for the value of `--mouse` in the documentation.
pub const VALUE_NAME_MOUSE: &'static str = "'on' or 'off'";

/// The one-line documentation of `--skip-first-run-prompt`.
pub const HELP_SKIP_FIRST_RUN_PROMPT: &'static str = "Skip the first run prompt";

/// The long documentation of `--skip-first-run-prompt`.
pub const LONG_HELP_SKIP_FIRST_RUN_PROMPT: &'static str = "Disables the welcome message shown on the first launch of fogo, which prompts the user to update their shell configuration for proper directory changing functionality. Use this flag if you have already configured your shell or want to bypass the prompt for other reasons.";

/// What opens the list of the flags that a flag overrides.
pub const OVERRIDES_OPENING: &'static str = "\n\nThis overrides the --";

/// What stands between two flags in the list of overridden flags, but the last two.
pub const OVERRIDES_NEXT: &'static str = ", --";

/// What stands before the last flag in the list of overridden flags.
pub const OVERRIDES_LAST: &'static str = " and --";

/// What closes the long documentation of a case sensitivity flag.
pub const CASE_CLOSING: &'static str = " options. You can also change the case sensitivity mode while the program is running with the keyboard shortcut Alt-c by default.";

/// What closes the long documentation of a search mode flag.
pub const SEARCH_CLOSING: &'static str = " options. You can also change the search mode while the program is running with the keyboard shortcut Ctrl-f by default.";

/// What opens the long documentation of the keymap option: what a mapping looks like, some examples, and the heading of the list of actions.
pub const KEYMAP_HELP_OPENING: &'static str = "Add one or more keyboard shortcut mappings. Mappings are of the form 'key-combination:action' or 'key-combination:context:action', see examples below. This option can be provided multiple times, and multiple mappings can be created by a comma-separated list of mappings. If the same key combination (with the same context) is provided multiple times, the previous mappings are overridden. Use the action 'None' to remove a previously added mapping or one of the default mappings.\n\nExamples:\n\n    -m ctrl-x:Exit - Exit fogo by typing ctrl-x\n    -m ctrl-h:ChangeDirParent,ctrl-j:CursorDown,ctrl-k:CursorUp,ctrl-l:ChangeDir - Navigate using Control + hjkl in addition to the default Alt + hjkl\n    -m 1:NotSearching:CursorTop - Move the cursor to the top of the listing by typing '1', but only if not already searching (so you can still search for filenames that contain '1')\n    -m esc:NotSearching:ExitWithoutCd,enter:ChangeDirAndExit - Exit without changing the current folder with Escape, and map Enter to select the directory under the cursor and exit\n    -m alt-h:None,alt-j:None,alt-k:None,alt-l:None - Disable navigation using Alt + hjkl\n    -m esc:Searching:None - Don't clear the search by pressing esc, but still exit using esc (if the search query is empty)\n\nPossible actions:\n\n";

/// The heading of the list of contexts in the long documentation of the keymap option.
pub const KEYMAP_HELP_CONTEXTS: &'static str = "\n\nPossible contexts:\n\n";

/// The name of the program.
pub const PROGRAM_NAME: &'static str = "fogo";

} // verus!
