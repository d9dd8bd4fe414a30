//! The settings of each engine.
use vstd::prelude::*;
use crate::text::{bool_text, chars_to_string, decimal, push_bool, push_digits, push_str};

verus! {

/// A line `max_depth: ` followed by the depth.
pub open spec fn depth_line(max_depth: u8) -> Seq<char> {
    "max_depth: "@ + decimal(max_depth as nat) + seq!['\n']
}

/// Appends `max_depth: ` and the depth, then a new line.
fn push_depth_line(out: &mut Vec<char>, max_depth: u8)
    ensures
        final(out)@ == old(out)@ + depth_line(max_depth),
{
    let ghost start = out@;
    push_str(out, "max_depth: ");
    push_digits(out, max_depth as u64, 10);
    out.push('\n');
    assert(out@ =~= start + depth_line(max_depth));
}

/// The random engine has no setting.
#[derive(Debug, Clone)]
pub struct DummyConf {}

/// The plies the minimax engine searches.
#[derive(Debug, Clone)]
pub struct MinimaxConf {
    pub max_depth: u8,
}

/// The search refinements of the alpha-beta engine, each on or off.
#[derive(Debug, Copy, Clone, PartialEq, Eq, Structural)]
pub struct AlphabetaFeatureConf {
    pub f_null_move_pruning: bool,
    pub f_transposition_table: bool,
    pub f_preorder: bool,
    pub f_lmr: bool,
    pub f_killer_move: bool,
    pub f_capture_horizon: bool,
    pub f_check_horizon: bool,
    pub f_cannot_win_force_null: bool,
}

/// The depth and refinements of the alpha-beta engine.
#[derive(Debug, Copy, Clone, PartialEq, Eq, Structural)]
pub struct AlphabetaConf {
    pub max_depth: u8,
    pub alpha_beta_features: AlphabetaFeatureConf,
}

impl AlphabetaConf {
    pub fn new(max_depth: u8, features: AlphabetaFeatureConf) -> (r: Self)
        ensures
            r == (AlphabetaConf { max_depth, alpha_beta_features: features }),
    {
        AlphabetaConf { max_depth, alpha_beta_features: features }
    }
}

/// The refinements of the iterative deepening engine, each on or off.
#[derive(Debug, Copy, Clone, PartialEq, Eq, Structural)]
pub struct IddfsFeatureConf {
    pub f_mat_solver: bool,
    pub f_aspiration_window: bool,
}

/// The depth and refinements of the iterative deepening engine and of the
/// alpha-beta search it runs.
#[derive(Debug, Copy, Clone, PartialEq, Eq, Structural)]
pub struct IDDFSConfig {
    pub max_depth: u8,
    pub iddfs_feature_conf: IddfsFeatureConf,
    pub alphabeta_feature_conf: AlphabetaFeatureConf,
}

impl IDDFSConfig {
    pub fn new(
        max_depth: u8,
        iddfs_feature_conf: IddfsFeatureConf,
        alphabeta_feature_conf: AlphabetaFeatureConf,
    ) -> (r: Self)
        ensures
            r == (IDDFSConfig { max_depth, iddfs_feature_conf, alphabeta_feature_conf }),
    {
        IDDFSConfig { max_depth, iddfs_feature_conf, alphabeta_feature_conf }
    }
}

/// The plies the mate solver searches.
#[derive(Debug, Copy, Clone, PartialEq, Eq, Structural)]
pub struct MatConfig {
    pub max_depth: u8,
}

impl MatConfig {
    pub fn new(max_depth: u8) -> (r: Self)
        ensures
            r == (MatConfig { max_depth }),
    {
        MatConfig { max_depth }
    }
}

impl MinimaxConf {
    /// The text of the setting: its depth line.
    pub fn to_text(&self) -> (r: String)
        ensures
            r@ == depth_line(self.max_depth),
    {
        let mut out: Vec<char> = Vec::new();
        push_depth_line(&mut out, self.max_depth);
        assert(out@ =~= depth_line(self.max_depth));
        chars_to_string(&out)
    }
}

impl MatConfig {
    /// The text of the setting: its depth line.
    pub fn to_text(&self) -> (r: String)
        ensures
            r@ == depth_line(self.max_depth),
    {
        let mut out: Vec<char> = Vec::new();
        push_depth_line(&mut out, self.max_depth);
        assert(out@ =~= depth_line(self.max_depth));
        chars_to_string(&out)
    }
}

/// A line of a refinement: its name, then whether it is on.
pub open spec fn flag_line(name: Seq<char>, on: bool) -> Seq<char> {
    name + bool_text(on) + seq!['\n']
}

/// Appends the line of a refinement (see `flag_line`).
fn push_flag_line(out: &mut Vec<char>, name: &str, on: bool)
    ensures
        final(out)@ == old(out)@ + flag_line(name@, on),
{
    let ghost start = out@;
    push_str(out, name);
    push_bool(out, on);
    out.push('\n');
    assert(out@ =~= start + flag_line(name@, on));
}

/// The text of the alpha-beta refinements: one line per refinement, its name
/// and whether it is on.
pub open spec fn alphabeta_features_text(c: AlphabetaFeatureConf) -> Seq<char> {
    flag_line("f_null_move_pruning : "@, c.f_null_move_pruning) + flag_line(
        "f_transposition_table: "@,
        c.f_transposition_table,
    ) + flag_line("f_preorder: "@, c.f_preorder) + flag_line("f_lmr: "@, c.f_lmr) + flag_line(
        "f_killer_move: "@,
        c.f_killer_move,
    ) + flag_line("f_capture_horizon: "@, c.f_capture_horizon) + flag_line("f_check_horizon: "@, c.f_check_horizon)
        + flag_line("f_cannot_win_force_null: "@, c.f_cannot_win_force_null)
}

/// The text of the iterative deepening refinements, one line each.
pub open spec fn iddfs_features_text(c: IddfsFeatureConf) -> Seq<char> {
    flag_line("f_mat_solver: "@, c.f_mat_solver) + flag_line("f_aspiration_window: "@, c.f_aspiration_window)
}

impl AlphabetaFeatureConf {
    fn push_text(&self, out: &mut Vec<char>)
        ensures
            final(out)@ == old(out)@ + alphabeta_features_text(*self),
    {
        let ghost start = out@;
        push_flag_line(out, "f_null_move_pruning : ", self.f_null_move_pruning);
        push_flag_line(out, "f_transposition_table: ", self.f_transposition_table);
        push_flag_line(out, "f_preorder: ", self.f_preorder);
        push_flag_line(out, "f_lmr: ", self.f_lmr);
        push_flag_line(out, "f_killer_move: ", self.f_killer_move);
        push_flag_line(out, "f_capture_horizon: ", self.f_capture_horizon);
        push_flag_line(out, "f_check_horizon: ", self.f_check_horizon);
        push_flag_line(out, "f_cannot_win_force_null: ", self.f_cannot_win_force_null);
        assert(out@ =~= start + alphabeta_features_text(*self));
    }

    /// The text of the refinements (see `alphabeta_features_text`).
    pub fn to_text(&self) -> (r: String)
        ensures
            r@ == alphabeta_features_text(*self),
    {
        let mut out: Vec<char> = Vec::new();
        self.push_text(&mut out);
        assert(out@ =~= alphabeta_features_text(*self));
        chars_to_string(&out)
    }
}

impl IddfsFeatureConf {
    fn push_text(&self, out: &mut Vec<char>)
        ensures
            final(out)@ == old(out)@ + iddfs_features_text(*self),
    {
        let ghost start = out@;
        push_flag_line(out, "f_mat_solver: ", self.f_mat_solver);
        push_flag_line(out, "f_aspiration_window: ", self.f_aspiration_window);
        assert(out@ =~= start + iddfs_features_text(*self));
    }

    /// The text of the refinements (see `iddfs_features_text`).
    pub fn to_text(&self) -> (r: String)
        ensures
            r@ == iddfs_features_text(*self),
    {
        let mut out: Vec<char> = Vec::new();
        self.push_text(&mut out);
        assert(out@ =~= iddfs_features_text(*self));
        chars_to_string(&out)
    }
}

impl AlphabetaConf {
    /// The text of the setting: the depth line, then the refinements after
    /// `alphabeta_features: `, and an empty line.
    pub fn to_text(&self) -> (r: String)
        ensures
            r@ == depth_line(self.max_depth) + "alphabeta_features: "@ + alphabeta_features_text(
                self.alpha_beta_features,
            ) + seq!['\n'],
    {
        let mut out: Vec<char> = Vec::new();
        push_depth_line(&mut out, self.max_depth);
        push_str(&mut out, "alphabeta_features: ");
        self.alpha_beta_features.push_text(&mut out);
        out.push('\n');
        assert(out@ =~= depth_line(self.max_depth) + "alphabeta_features: "@ + alphabeta_features_text(
            self.alpha_beta_features,
        ) + seq!['\n']);
        chars_to_string(&out)
    }
}

impl IDDFSConfig {
    /// The text of the setting: the depth line, the iterative deepening
    /// refinements and the alpha-beta ones, each set after its name and
    /// followed by an empty line.
    pub fn to_text(&self) -> (r: String)
        ensures
            r@ == depth_line(self.max_depth) + "iddfs_feature_conf: "@ + iddfs_features_text(self.iddfs_feature_conf)
                + seq!['\n'] + "alphabeta_feature_conf: "@ + alphabeta_features_text(self.alphabeta_feature_conf)
                + seq!['\n'],
    {
        let mut out: Vec<char> = Vec::new();
        push_depth_line(&mut out, self.max_depth);
        push_str(&mut out, "iddfs_feature_conf: ");
        self.iddfs_feature_conf.push_text(&mut out);
        out.push('\n');
        push_str(&mut out, "alphabeta_feature_conf: ");
        self.alphabeta_feature_conf.push_text(&mut out);
        out.push('\n');
        assert(out@ =~= depth_line(self.max_depth) + "iddfs_feature_conf: "@ + iddfs_features_text(
            self.iddfs_feature_conf,
        ) + seq!['\n'] + "alphabeta_feature_conf: "@ + alphabeta_features_text(self.alphabeta_feature_conf)
            + seq!['\n']);
        chars_to_string(&out)
    }
}

} // verus!
