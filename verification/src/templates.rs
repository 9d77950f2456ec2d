//! Template contracts and the registry that owns them.
//!
//! A template is a versioned contract for one class of asset: its shape, the
//! thresholds its validation rules use, and the files an accepted asset is
//! exported to. The registry maps identifiers to templates.

use vstd::prelude::*;
use vstd::string::*;

verus! {

pub type TemplateId = String;

/// The closed set of asset classes.
#[derive(Debug, Clone, PartialEq, Eq)]
pub enum AssetClass {
    Icon,
    Cover,
    Banner,
    Logo,
}

/// What a validation run does with violations of Error severity.
#[derive(Debug, Clone, PartialEq, Eq)]
pub enum FailureMode {
    /// Errors make the result invalid.
    Block,
    /// Violations are recorded; the result is valid.
    Warn,
    /// Violations are recorded; the result is valid.
    Log,
}

/// The closed set of export formats.
#[derive(Debug, Clone, PartialEq, Eq)]
pub enum ExportFormat {
    Svg,
    Png,
    Ico,
    Pdf,
    Jpg,
}

/// A non-negative tolerance on the difference of two ratios, held exactly as
/// a whole number of millionths: `Tolerance { millionths: 10_000 }` is 0.01.
#[derive(Debug, Clone, Copy, PartialEq, Eq)]
pub struct Tolerance {
    pub millionths: u32,
}

/// Configuration of the aspect-ratio rule.
#[derive(Debug, Clone)]
pub struct RuleConfig {
    pub enabled: bool,
    pub tolerance: Tolerance,
}

/// Configuration of the resolution rule.
#[derive(Debug, Clone)]
pub struct ResolutionRule {
    pub enabled: bool,
    pub min_width: u32,
    pub min_height: u32,
}

/// Configuration of the color-count rule.
#[derive(Debug, Clone)]
pub struct ColorCountRule {
    pub enabled: bool,
    pub max: u32,
}

/// The per-rule configuration of a template.
#[derive(Debug, Clone)]
pub struct ValidationRules {
    pub aspect_ratio: RuleConfig,
    pub resolution: ResolutionRule,
    pub color_count: ColorCountRule,
}

/// How assets of a template are validated.
#[derive(Debug, Clone)]
pub struct ValidationConfig {
    /// Informational only: validation always runs.
    pub required: bool,
    pub failure_mode: FailureMode,
    pub rules: ValidationRules,
}

/// One file that a compiled asset is exported to.
#[derive(Debug, Clone)]
pub struct ExportSpec {
    pub id: String,
    pub description: String,
    pub size: [u32; 2],
    pub format: ExportFormat,
    pub required: bool,
}

/// The contract for one class of asset.
#[derive(Debug, Clone)]
pub struct Template {
    pub id: TemplateId,
    pub name: String,
    pub description: String,
    pub template_version: String,
    pub engine_min_version: String,
    pub deprecated: bool,
    pub superseded_by: Option<String>,
    pub asset_class: AssetClass,
    pub aspect_ratio: [u32; 2],
    pub canonical_size: [u32; 2],
    pub vector_master: bool,
    pub validation: ValidationConfig,
    pub exports: Vec<ExportSpec>,
}

impl Template {
    /// What a template must satisfy to be a meaningful contract: a non-empty
    /// identifier and an aspect ratio of two positive numbers.
    pub open spec fn well_formed(&self) -> bool {
        &&& self.id@.len() > 0
        &&& self.aspect_ratio[0] > 0
        &&& self.aspect_ratio[1] > 0
    }

    /// Decides `well_formed`.
    pub fn is_well_formed(&self) -> (ok: bool)
        ensures
            ok == self.well_formed(),
    {
        !self.id.as_str().is_empty() && self.aspect_ratio[0] > 0 && self.aspect_ratio[1] > 0
    }
}

/// The default of a flag that is on unless configured otherwise.
pub fn default_true() -> (flag: bool)
    ensures
        flag,
{
    true
}

/// The default aspect-ratio tolerance, 0.01.
pub fn default_tolerance() -> (tolerance: Tolerance)
    ensures
        tolerance.millionths == 10_000,
{
    Tolerance { millionths: 10_000 }
}

/// The default minimum width in pixels.
pub fn default_min_width() -> (width: u32)
    ensures
        width == 1024,
{
    1024
}

/// The default minimum height in pixels.
pub fn default_min_height() -> (height: u32)
    ensures
        height == 1024,
{
    1024
}

/// The default maximum number of colors.
pub fn default_max_colors() -> (colors: u32)
    ensures
        colors == 16,
{
    16
}

impl Default for FailureMode {
    fn default() -> (mode: Self)
        ensures
            mode is Block,
    {
        FailureMode::Block
    }
}

impl Default for RuleConfig {
    /// Enabled, with a tolerance of 0.01.
    fn default() -> (config: Self)
        ensures
            config.enabled,
            config.tolerance.millionths == 10_000,
    {
        RuleConfig { enabled: default_true(), tolerance: default_tolerance() }
    }
}

impl Default for ResolutionRule {
    /// Enabled, with a minimum of 1024 by 1024 pixels.
    fn default() -> (config: Self)
        ensures
            config.enabled,
            config.min_width == 1024,
            config.min_height == 1024,
    {
        ResolutionRule {
            enabled: default_true(),
            min_width: default_min_width(),
            min_height: default_min_height(),
        }
    }
}

impl Default for ColorCountRule {
    /// Disabled, with a maximum of 16 colors.
    fn default() -> (config: Self)
        ensures
            !config.enabled,
            config.max == 16,
    {
        ColorCountRule { enabled: false, max: default_max_colors() }
    }
}

impl Default for ValidationRules {
    fn default() -> (rules: Self)
        ensures
            rules.aspect_ratio.enabled,
            rules.aspect_ratio.tolerance.millionths == 10_000,
            rules.resolution.enabled,
            rules.resolution.min_width == 1024,
            rules.resolution.min_height == 1024,
            !rules.color_count.enabled,
            rules.color_count.max == 16,
    {
        ValidationRules {
            aspect_ratio: RuleConfig { enabled: default_true(), tolerance: default_tolerance() },
            resolution: ResolutionRule {
                enabled: default_true(),
                min_width: default_min_width(),
                min_height: default_min_height(),
            },
            color_count: ColorCountRule { enabled: false, max: default_max_colors() },
        }
    }
}

impl Default for ValidationConfig {
    /// Required, blocking on errors, with every rule at its default.
    fn default() -> (config: Self)
        ensures
            config.required,
            config.failure_mode is Block,
            config.rules.aspect_ratio.enabled,
            config.rules.aspect_ratio.tolerance.millionths == 10_000,
            config.rules.resolution.enabled,
            config.rules.resolution.min_width == 1024,
            config.rules.resolution.min_height == 1024,
            !config.rules.color_count.enabled,
            config.rules.color_count.max == 16,
    {
        ValidationConfig {
            required: default_true(),
            failure_mode: FailureMode::Block,
            rules: ValidationRules {
                aspect_ratio: RuleConfig {
                    enabled: default_true(),
                    tolerance: default_tolerance(),
                },
                resolution: ResolutionRule {
                    enabled: default_true(),
                    min_width: default_min_width(),
                    min_height: default_min_height(),
                },
                color_count: ColorCountRule { enabled: false, max: default_max_colors() },
            },
        }
    }
}

/// The templates known to a pipeline, by identifier.
///
/// No two templates of a registry share an identifier.
pub struct TemplateRegistry {
    templates: Vec<Template>,
}

impl View for TemplateRegistry {
    type V = Map<Seq<char>, Template>;

    /// The registered templates, keyed by identifier.
    closed spec fn view(&self) -> Map<Seq<char>, Template> {
        Map::new(
            |id: Seq<char>| self.position(id) is Some,
            |id: Seq<char>| self.templates@[self.position(id)->0],
        )
    }
}

impl TemplateRegistry {
    #[verifier::type_invariant]
    spec fn identifiers_are_unique(&self) -> bool {
        forall|i: int, j: int|
            0 <= i < j < self.templates@.len() ==> self.templates@[i].id@ != self.templates@[j].id@
    }

    /// Where the template named `id` is stored, if there is one.
    spec fn position(&self, id: Seq<char>) -> Option<int> {
        if exists|i: int| 0 <= i < self.templates@.len() && self.templates@[i].id@ == id {
            Some(choose|i: int| 0 <= i < self.templates@.len() && self.templates@[i].id@ == id)
        } else {
            None
        }
    }

    /// An empty registry.
    pub fn new() -> (registry: Self)
        ensures
            registry@ == Map::<Seq<char>, Template>::empty(),
    {
        let registry = TemplateRegistry { templates: Vec::new() };
        proof {
            assert(registry@ =~= Map::<Seq<char>, Template>::empty());
        }
        registry
    }

    fn find(&self, id: &str) -> (found: Option<usize>)
        ensures
            match found {
                Some(i) => i < self.templates@.len() && self.templates@[i as int].id@ == id@
                    && self.position(id@) == Some(i as int),
                None => self.position(id@) is None,
            },
    {
        proof {
            use_type_invariant(self);
        }
        let key = String::from_str(id);
        let mut i: usize = 0;
        while i < self.templates.len()
            invariant
                i <= self.templates@.len(),
                key@ == id@,
                self.identifiers_are_unique(),
                forall|j: int| 0 <= j < i ==> self.templates@[j].id@ != id@,
            decreases self.templates@.len() - i,
        {
            if self.templates[i].id == key {
                return Some(i);
            }
            i += 1;
        }
        None
    }

    /// The template registered under `id`.
    pub fn get(&self, id: &str) -> (found: Option<&Template>)
        ensures
            match found {
                Some(template) => self@.dom().contains(id@) && *template == self@[id@],
                None => !self@.dom().contains(id@),
            },
    {
        match self.find(id) {
            Some(i) => Some(&self.templates[i]),
            None => None,
        }
    }

    /// Every registered template, each exactly once, in no promised order.
    pub fn list(&self) -> (all: Vec<&Template>)
        ensures
            forall|i: int|
                0 <= i < all@.len() ==> self@.dom().contains(#[trigger] all@[i].id@)
                    && self@[all@[i].id@] == *all@[i],
            forall|id: Seq<char>|
                self@.dom().contains(id) ==> exists|i: int|
                    0 <= i < all@.len() && #[trigger] all@[i].id@ == id,
            forall|i: int, j: int| 0 <= i < j < all@.len() ==> all@[i].id@ != all@[j].id@,
    {
        proof {
            use_type_invariant(self);
        }
        let mut all: Vec<&Template> = Vec::new();
        let mut i: usize = 0;
        while i < self.templates.len()
            invariant
                i <= self.templates@.len(),
                all@.len() == i,
                forall|j: int| 0 <= j < i ==> *all@[j] == self.templates@[j],
            decreases self.templates@.len() - i,
        {
            all.push(&self.templates[i]);
            i += 1;
        }
        proof {
            assert forall|k: int| 0 <= k < all@.len() implies self@.dom().contains(
                #[trigger] all@[k].id@,
            ) && self@[all@[k].id@] == *all@[k] by {
                assert(self.templates@[k].id@ == all@[k].id@);
            }
            assert forall|id: Seq<char>| self@.dom().contains(id) implies exists|k: int|
                0 <= k < all@.len() && #[trigger] all@[k].id@ == id by {
                let k = self.position(id)->0;
                assert(all@[k].id@ == id);
            }
        }
        all
    }

    /// Registers `template` under its identifier, in place of any template
    /// registered under that identifier before.
    pub fn register(&mut self, template: Template)
        ensures
            final(self)@ == old(self)@.insert(template.id@, template),
    {
        proof {
            use_type_invariant(&*self);
        }
        let ghost before = *self;
        let found = self.find(template.id.as_str());
        let mut templates: Vec<Template> = Vec::new();
        core::mem::swap(&mut self.templates, &mut templates);
        match found {
            Some(i) => {
                templates.set(i, template);
            },
            None => {
                templates.push(template);
            },
        }
        core::mem::swap(&mut self.templates, &mut templates);
        proof {
            let after = *self;
            assert forall|id: Seq<char>| #[trigger]
                after@.dom().contains(id) == before@.insert(template.id@, template).dom().contains(
                    id,
                ) by {
                if id == template.id@ {
                    let k = if before.position(id) is Some {
                        before.position(id)->0
                    } else {
                        before.templates@.len() as int
                    };
                    assert(after.templates@[k].id@ == id);
                } else if before.position(id) is Some {
                    let k = before.position(id)->0;
                    assert(after.templates@[k].id@ == id);
                } else if after.position(id) is Some {
                    let k = after.position(id)->0;
                    assert(before.templates@[k].id@ == id);
                }
            }
            assert forall|id: Seq<char>| #[trigger] after@.dom().contains(id) implies after@[id]
                == before@.insert(template.id@, template)[id] by {
                let k = after.position(id)->0;
                if id != template.id@ {
                    let b = before.position(id)->0;
                    assert(after.templates@[b].id@ == id);
                }
            }
            assert(after@ =~= before@.insert(template.id@, template));
        }
    }
}

impl Default for TemplateRegistry {
    fn default() -> (registry: Self)
        ensures
            registry@ == Map::<Seq<char>, Template>::empty(),
    {
        TemplateRegistry::new()
    }
}

} // verus!
