//! The immutable configuration the browser consumes: key-role bindings,
//! color roles, and behavioral settings, with their documented defaults.
//! Loading and saving these from disk is the shell's concern, not this
//! crate's; the preview split ratio is carried here as a whole percentage.
use vstd::prelude::*;

verus! {

/// Which characters trigger each logical action.
pub struct Keybindings {
    pub up: Vec<char>,
    pub down: Vec<char>,
    pub left: Vec<char>,
    pub right: Vec<char>,
    pub open: Vec<char>,
    pub back: Vec<char>,
    pub home: Vec<char>,
    pub quit: Vec<char>,
    pub quit_then_open_in_finder: Vec<char>,
    pub help: Vec<char>,
    pub preview_toggle: Vec<char>,
    pub preview_up: Vec<char>,
    pub preview_down: Vec<char>,
    pub preview_height_decrease: Vec<char>,
    pub preview_height_increase: Vec<char>,
    pub toggle_hidden: Vec<char>,
    pub fuzzy_find: Vec<char>,
    pub fuzzy_back: Vec<char>,
    pub fuzzy_home: Vec<char>,
    pub toggle_mode: Vec<char>,
    pub rename: Vec<char>,
    pub next_sibling: Vec<char>,
    pub prev_sibling: Vec<char>,
    pub copy: Vec<char>,
    pub paste: Vec<char>,
    pub trash: Vec<char>,
    pub delete: Vec<char>,
    pub undo: Vec<char>,
    pub redo: Vec<char>,
    pub create: Vec<char>,
    pub jump_up: Vec<char>,
    pub jump_down: Vec<char>,
    pub jump_left: Vec<char>,
    pub jump_right: Vec<char>,
}

impl Keybindings {
    /// Whether a binding list holds the pressed character.
    pub fn contains(&self, key_list: &Vec<char>, ch: char) -> (r: bool)
        ensures
            r == key_list@.contains(ch),
    {
        let mut i: usize = 0;
        while i < key_list.len()
            invariant
                i <= key_list@.len(),
                forall|k: int| 0 <= k < i ==> key_list@[k] != ch,
            decreases key_list@.len() - i,
        {
            if key_list[i] == ch {
                return true;
            }
            i = i + 1;
        }
        false
    }
}

impl Default for Keybindings {
    /// The documented default bindings.
    fn default() -> (k: Keybindings)
        ensures
            k.up@ == seq!['w'],
            k.down@ == seq!['s'],
            k.left@ == seq!['a'],
            k.right@ == seq!['d'],
            k.open@ == seq!['l'],
            k.back@ == seq!['j', 'b'],
            k.home@ == seq!['h'],
            k.quit@ == seq!['q'],
            k.quit_then_open_in_finder@ == seq!['Q'],
            k.help@ == seq!['?'],
            k.preview_toggle@ == seq!['p'],
            k.preview_up@ == seq!['i'],
            k.preview_down@ == seq!['o'],
            k.preview_height_decrease@ == seq!['-', '_'],
            k.preview_height_increase@ == seq!['+', '='],
            k.toggle_hidden@ == seq!['.'],
            k.fuzzy_find@ == seq!['/'],
            k.fuzzy_back@ == seq!['/'],
            k.fuzzy_home@ == seq!['?'],
            k.toggle_mode@ == seq!['m'],
            k.rename@ == seq!['r'],
            k.next_sibling@ == seq!['n'],
            k.prev_sibling@ == seq!['N'],
            k.copy@ == seq!['c'],
            k.paste@ == seq!['v'],
            k.trash@ == seq!['x'],
            k.delete@ == seq!['X'],
            k.undo@ == seq!['z'],
            k.redo@ == seq!['Z'],
            k.create@ == seq!['y'],
            k.jump_up@ == seq!['W'],
            k.jump_down@ == seq!['S'],
            k.jump_left@ == seq!['A'],
            k.jump_right@ == seq!['D'],
    {
        let k = Keybindings {
            up: vec!['w'],
            down: vec!['s'],
            left: vec!['a'],
            right: vec!['d'],
            open: vec!['l'],
            back: vec!['j', 'b'],
            home: vec!['h'],
            quit: vec!['q'],
            quit_then_open_in_finder: vec!['Q'],
            help: vec!['?'],
            preview_toggle: vec!['p'],
            preview_up: vec!['i'],
            preview_down: vec!['o'],
            preview_height_decrease: vec!['-', '_'],
            preview_height_increase: vec!['+', '='],
            toggle_hidden: vec!['.'],
            fuzzy_find: vec!['/'],
            fuzzy_back: vec!['/'],
            fuzzy_home: vec!['?'],
            toggle_mode: vec!['m'],
            rename: vec!['r'],
            next_sibling: vec!['n'],
            prev_sibling: vec!['N'],
            copy: vec!['c'],
            paste: vec!['v'],
            trash: vec!['x'],
            delete: vec!['X'],
            undo: vec!['z'],
            redo: vec!['Z'],
            create: vec!['y'],
            jump_up: vec!['W'],
            jump_down: vec!['S'],
            jump_left: vec!['A'],
            jump_right: vec!['D'],
        };
        proof {
            assert(k.back@ =~= seq!['j', 'b']);
            assert(k.preview_height_decrease@ =~= seq!['-', '_']);
            assert(k.preview_height_increase@ =~= seq!['+', '=']);
        }
        k
    }
}

/// The color role strings, as the configuration names them.
pub struct ColorConfig {
    pub path_fg: String,
    pub path_bg: String,
    pub selected_fg: String,
    pub selected_bg: String,
    pub directory_fg: String,
    pub directory_bg: String,
    pub file_fg: String,
    pub file_bg: String,
    pub preview_border_fg: String,
    pub cursor_fg: String,
    pub cursor_bg: String,
    pub fuzzy_highlight_fg: String,
    pub fuzzy_highlight_bg: String,
    pub line_number_fg: String,
}

/// Default foreground of the path bar.
pub fn default_path_fg() -> (r: String)
    ensures
        r@ == "white"@,
{
    String::from_str("white")
}

/// Default background of the path bar.
pub fn default_path_bg() -> (r: String)
    ensures
        r@ == "#333333"@,
{
    String::from_str("#333333")
}

/// Default foreground of the selected entry.
pub fn default_selected_fg() -> (r: String)
    ensures
        r@ == "none"@,
{
    String::from_str("none")
}

/// Default background of the selected entry.
pub fn default_selected_bg() -> (r: String)
    ensures
        r@ == "none"@,
{
    String::from_str("none")
}

/// Default foreground of directory names.
pub fn default_directory_fg() -> (r: String)
    ensures
        r@ == "cyan"@,
{
    String::from_str("cyan")
}

/// Default background of directory names.
pub fn default_directory_bg() -> (r: String)
    ensures
        r@ == "none"@,
{
    String::from_str("none")
}

/// Default foreground of file names.
pub fn default_file_fg() -> (r: String)
    ensures
        r@ == "none"@,
{
    String::from_str("none")
}

/// Default background of file names.
pub fn default_file_bg() -> (r: String)
    ensures
        r@ == "none"@,
{
    String::from_str("none")
}

/// Default color of the preview pane border.
pub fn default_preview_border_fg() -> (r: String)
    ensures
        r@ == "darkgrey"@,
{
    String::from_str("darkgrey")
}

/// Default foreground of the cursor mark.
pub fn default_cursor_fg() -> (r: String)
    ensures
        r@ == "green"@,
{
    String::from_str("green")
}

/// Default background of the cursor mark.
pub fn default_cursor_bg() -> (r: String)
    ensures
        r@ == "none"@,
{
    String::from_str("none")
}

/// Default foreground of the fuzzy match highlight.
pub fn default_fuzzy_highlight_fg() -> (r: String)
    ensures
        r@ == "#ffff00"@,
{
    String::from_str("#ffff00")
}

/// Default background of the fuzzy match highlight.
pub fn default_fuzzy_highlight_bg() -> (r: String)
    ensures
        r@ == "#323232"@,
{
    String::from_str("#323232")
}

/// Default color of preview line numbers.
pub fn default_line_number_fg() -> (r: String)
    ensures
        r@ == "darkgrey"@,
{
    String::from_str("darkgrey")
}

impl Default for ColorConfig {
    /// The documented default color roles.
    fn default() -> (c: ColorConfig)
        ensures
            c.path_fg@ == "white"@,
            c.path_bg@ == "#333333"@,
            c.selected_fg@ == "none"@,
            c.selected_bg@ == "none"@,
            c.directory_fg@ == "cyan"@,
            c.directory_bg@ == "none"@,
            c.file_fg@ == "none"@,
            c.file_bg@ == "none"@,
            c.preview_border_fg@ == "darkgrey"@,
            c.cursor_fg@ == "green"@,
            c.cursor_bg@ == "none"@,
            c.fuzzy_highlight_fg@ == "#ffff00"@,
            c.fuzzy_highlight_bg@ == "#323232"@,
            c.line_number_fg@ == "darkgrey"@,
    {
        ColorConfig {
            path_fg: default_path_fg(),
            path_bg: default_path_bg(),
            selected_fg: default_selected_fg(),
            selected_bg: default_selected_bg(),
            directory_fg: default_directory_fg(),
            directory_bg: default_directory_bg(),
            file_fg: default_file_fg(),
            file_bg: default_file_bg(),
            preview_border_fg: default_preview_border_fg(),
            cursor_fg: default_cursor_fg(),
            cursor_bg: default_cursor_bg(),
            fuzzy_highlight_fg: default_fuzzy_highlight_fg(),
            fuzzy_highlight_bg: default_fuzzy_highlight_bg(),
            line_number_fg: default_line_number_fg(),
        }
    }
}

/// The behavioral settings the browser consults. The preview split ratio is
/// a whole percentage of the screen, `0` to `100`.
pub struct Settings {
    pub exit_after_edit: bool,
    pub preview_scroll_amount: usize,
    pub show_hidden: bool,
    pub preview_on_start: bool,
    pub preview_split_percent: u8,
    pub case_sensitive_search: bool,
    pub show_dir_slash: bool,
    pub jump_amount: usize,
    pub show_tilde_for_home: bool,
    pub verbose_dates: bool,
}

/// By default the browser stays open after editing a file.
pub fn default_exit_after_edit() -> (r: bool)
    ensures
        r == false,
{
    false
}

/// Jump moves step five entries by default.
pub fn default_jump_amount() -> (r: usize)
    ensures
        r == 5,
{
    5
}

/// Preview scrolling steps ten lines by default.
pub fn default_preview_scroll_amount() -> (r: usize)
    ensures
        r == 10,
{
    10
}

/// Hidden entries are not shown by default.
pub fn default_show_hidden() -> (r: bool)
    ensures
        r == false,
{
    false
}

/// The preview pane starts closed by default.
pub fn default_preview_on_start() -> (r: bool)
    ensures
        r == false,
{
    false
}

/// The home directory shows as a tilde by default.
pub fn default_show_tilde_for_home() -> (r: bool)
    ensures
        r == true,
{
    true
}

/// Dates show in the compact form by default.
pub fn default_verbose_dates() -> (r: bool)
    ensures
        r == false,
{
    false
}

/// The preview takes half the screen by default.
pub fn default_preview_split_percent() -> (r: u8)
    ensures
        r == 50,
{
    50
}

/// Fuzzy search folds case by default.
pub fn default_case_sensitive_search() -> (r: bool)
    ensures
        r == false,
{
    false
}

/// Directories show a trailing slash by default.
pub fn default_show_dir_slash() -> (r: bool)
    ensures
        r == true,
{
    true
}

impl Default for Settings {
    /// The documented default settings.
    fn default() -> (s: Settings)
        ensures
            s.exit_after_edit == false,
            s.preview_scroll_amount == 10,
            s.show_hidden == false,
            s.preview_on_start == false,
            s.preview_split_percent == 50,
            s.case_sensitive_search == false,
            s.show_dir_slash == true,
            s.jump_amount == 5,
            s.show_tilde_for_home == true,
            s.verbose_dates == false,
    {
        Settings {
            exit_after_edit: default_exit_after_edit(),
            preview_scroll_amount: default_preview_scroll_amount(),
            show_hidden: default_show_hidden(),
            preview_on_start: default_preview_on_start(),
            preview_split_percent: default_preview_split_percent(),
            case_sensitive_search: default_case_sensitive_search(),
            show_dir_slash: default_show_dir_slash(),
            jump_amount: default_jump_amount(),
            show_tilde_for_home: default_show_tilde_for_home(),
            verbose_dates: default_verbose_dates(),
        }
    }
}

/// The whole configuration record.
pub struct Config {
    pub keybindings: Keybindings,
    pub colors: ColorConfig,
    pub settings: Settings,
}

} // verus!
