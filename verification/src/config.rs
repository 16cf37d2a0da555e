//! The configuration of one transformation, and how it is read from the
//! items of an attribute's argument list.

use vstd::prelude::*;
use crate::text::{texts, append_texts, is_word};

verus! {

/// A literal in an argument list.
#[derive(Debug, Clone, PartialEq, Eq)]
pub enum Literal {
    /// A string literal, with its value.
    Str(String),
    /// Any other literal.
    Other,
}

/// What follows an item's key.
#[derive(Debug, Clone, PartialEq, Eq)]
pub enum MetaForm {
    /// Nothing: the key stands alone.
    Bare,
    /// `key = literal`.
    Value(Literal),
    /// `key(literal, literal, ...)`.
    List(Vec<Literal>),
}

/// One item of the argument list.
#[derive(Debug, Clone, PartialEq, Eq)]
pub struct MetaItem {
    pub key: String,
    pub form: MetaForm,
}

/// Why an argument list gives no configuration.
#[derive(Debug, Clone, PartialEq, Eq)]
pub enum ConfigError {
    /// No item named the feature flag.
    MissingFeature,
    /// An item's key is none of the recognized ones; holds the key.
    UnknownKey(String),
    /// An item's key is recognized, but what follows it is not what the key
    /// takes; holds the key.
    Malformed(String),
    /// A hook or a delegate name is no identifier; holds the name.
    BadIdentifier(String),
}

impl ConfigError {
    /// The diagnostic shown for this error.
    pub fn message(&self) -> (r: String)
        ensures
            r@ == match *self {
                ConfigError::MissingFeature => "feat attribute is required"@,
                ConfigError::UnknownKey(_) => "unrecognized hijekt attribute"@,
                ConfigError::Malformed(_) => "expected key-value or list"@,
                ConfigError::BadIdentifier(_) => "expected identifier"@,
            },
    {
        match self {
            ConfigError::MissingFeature => String::from_str("feat attribute is required"),
            ConfigError::UnknownKey(_) => String::from_str("unrecognized hijekt attribute"),
            ConfigError::Malformed(_) => String::from_str("expected key-value or list"),
            ConfigError::BadIdentifier(_) => String::from_str("expected identifier"),
        }
    }
}

/// The configuration of one transformation.
#[derive(Debug, Clone, PartialEq, Eq)]
pub struct HijektConfig {
    /// The feature that selects the transformed variant.
    pub feat: String,
    /// Hooks called without arguments before the body.
    pub begin: Vec<String>,
    /// Hooks called before the body with a reference to every parameter.
    pub begin_with: Vec<String>,
    /// Hooks called without arguments after the body.
    pub end: Vec<String>,
    /// Names of nested declarations, bindings or fields to remove.
    pub rm: Vec<String>,
    /// The function that replaces the body, if any.
    pub replace: Option<String>,
    /// Fields to append to a struct: `name: type`, or a type alone.
    pub add: Vec<String>,
}

pub struct ConfigView {
    pub feat: Seq<char>,
    pub begin: Seq<Seq<char>>,
    pub begin_with: Seq<Seq<char>>,
    pub end: Seq<Seq<char>>,
    pub rm: Seq<Seq<char>>,
    pub replace: Option<Seq<char>>,
    pub add: Seq<Seq<char>>,
}

impl View for HijektConfig {
    type V = ConfigView;

    open spec fn view(&self) -> ConfigView {
        ConfigView {
            feat: self.feat@,
            begin: texts(self.begin@),
            begin_with: texts(self.begin_with@),
            end: texts(self.end@),
            rm: texts(self.rm@),
            replace: match self.replace {
                Some(s) => Some(s@),
                None => None,
            },
            add: texts(self.add@),
        }
    }
}

/// The configuration in which nothing is set.
pub open spec fn empty_config() -> ConfigView {
    ConfigView {
        feat: Seq::empty(),
        begin: Seq::empty(),
        begin_with: Seq::empty(),
        end: Seq::empty(),
        rm: Seq::empty(),
        replace: None,
        add: Seq::empty(),
    }
}

/// Whether a configuration sets nothing but the feature flag.
pub open spec fn is_simple(c: ConfigView) -> bool {
    &&& c.begin.len() == 0
    &&& c.begin_with.len() == 0
    &&& c.end.len() == 0
    &&& c.rm.len() == 0
    &&& c.replace is None
    &&& c.add.len() == 0
}

/// Whether `k` is one of the recognized keys.
pub open spec fn known_key(k: Seq<char>) -> bool {
    k == "feat"@ || k == "begin"@ || k == "begin_with"@ || k == "end"@ || k == "rm"@ || k
        == "swap"@ || k == "add"@
}

/// Whether every literal of a list is a string.
pub open spec fn all_strings(lits: Seq<Literal>) -> bool {
    forall|i: int| 0 <= i < lits.len() ==> (#[trigger] lits[i]) is Str
}

/// The values of a list of string literals, in order.
pub open spec fn list_values(lits: Seq<Literal>) -> Seq<Seq<char>> {
    Seq::new(lits.len(), |i: int| lits[i]->Str_0@)
}

/// The string values that an item carries, in source order; `None` where it
/// carries none or one of its literals is no string.
pub open spec fn values(form: MetaForm) -> Option<Seq<Seq<char>>> {
    match form {
        MetaForm::Bare => None,
        MetaForm::Value(Literal::Str(s)) => Some(seq![s@]),
        MetaForm::Value(Literal::Other) => None,
        MetaForm::List(lits) => if all_strings(lits@) {
            Some(list_values(lits@))
        } else {
            None
        },
    }
}

/// The configuration after one more item, or the error that the item gives.
/// The flag and the delegate take a single value, and a later one replaces an
/// earlier; every other key appends its values to its list.
pub open spec fn applied(c: ConfigView, m: MetaItem) -> Result<ConfigView, ConfigError> {
    let k = m.key@;
    if !known_key(k) {
        Err(ConfigError::UnknownKey(m.key))
    } else {
        match values(m.form) {
            None => Err(ConfigError::Malformed(m.key)),
            Some(vs) => if k == "feat"@ {
                if m.form is Value {
                    Ok(ConfigView { feat: vs[0], ..c })
                } else {
                    Err(ConfigError::Malformed(m.key))
                }
            } else if k == "swap"@ {
                if m.form is Value {
                    Ok(ConfigView { replace: Some(vs[0]), ..c })
                } else {
                    Err(ConfigError::Malformed(m.key))
                }
            } else if k == "begin"@ {
                Ok(ConfigView { begin: c.begin + vs, ..c })
            } else if k == "begin_with"@ {
                Ok(ConfigView { begin_with: c.begin_with + vs, ..c })
            } else if k == "end"@ {
                Ok(ConfigView { end: c.end + vs, ..c })
            } else if k == "rm"@ {
                Ok(ConfigView { rm: c.rm + vs, ..c })
            } else {
                Ok(ConfigView { add: c.add + vs, ..c })
            },
        }
    }
}

/// The configuration after the first `n` items, or the first error among them.
pub open spec fn parsed_prefix(items: Seq<MetaItem>, n: nat) -> Result<ConfigView, ConfigError>
    decreases n,
{
    if n == 0 || n > items.len() {
        Ok(empty_config())
    } else {
        match parsed_prefix(items, (n - 1) as nat) {
            Err(e) => Err(e),
            Ok(c) => applied(c, items[n - 1]),
        }
    }
}

/// What an argument list gives: the configuration after all its items, which
/// must name a feature flag.
pub open spec fn parsed(items: Seq<MetaItem>) -> Result<ConfigView, ConfigError> {
    match parsed_prefix(items, items.len()) {
        Err(e) => Err(e),
        Ok(c) => if c.feat.len() == 0 {
            Err(ConfigError::MissingFeature)
        } else {
            Ok(c)
        },
    }
}

/// The string values of an item, in source order.
pub fn item_values(form: &MetaForm) -> (r: Option<Vec<String>>)
    ensures
        match values(*form) {
            None => r is None,
            Some(vs) => r is Some && texts(r->Some_0@) == vs,
        },
{
    match form {
        MetaForm::Bare => None,
        MetaForm::Value(Literal::Str(s)) => {
            let mut out: Vec<String> = Vec::new();
            out.push(s.clone());
            proof {
                assert(texts(out@) =~= seq![s@]);
            }
            Some(out)
        },
        MetaForm::Value(Literal::Other) => None,
        MetaForm::List(lits) => {
            let mut out: Vec<String> = Vec::new();
            let mut i: usize = 0;
            while i < lits.len()
                invariant
                    i <= lits.len(),
                    out@.len() == i,
                    *form == MetaForm::List(*lits),
                    forall|j: int| 0 <= j < i ==> (#[trigger] lits@[j]) is Str,
                    forall|j: int| 0 <= j < i ==> (#[trigger] out@[j])@ == lits@[j]->Str_0@,
                decreases lits.len() - i,
            {
                match &lits[i] {
                    Literal::Str(s) => {
                        out.push(s.clone());
                    },
                    Literal::Other => {
                        assert(!(lits@[i as int] is Str));
                        return None;
                    },
                }
                i += 1;
            }
            proof {
                assert(texts(out@) =~= list_values(lits@));
            }
            Some(out)
        },
    }
}

impl HijektConfig {
    /// Whether the configuration can be used: it names a feature flag.
    pub open spec fn wf(&self) -> bool {
        self.feat@.len() > 0
    }

    /// The feature that selects the transformed variant.
    pub fn feature_flag(&self) -> (r: String)
        ensures
            r == self.feat,
    {
        self.feat.clone()
    }

    /// Whether nothing but the feature flag is set.
    pub fn is_simple_feature_only(&self) -> (r: bool)
        ensures
            r == is_simple(self@),
    {
        self.begin.len() == 0 && self.begin_with.len() == 0 && self.end.len() == 0
            && self.rm.len() == 0 && self.replace.is_none() && self.add.len() == 0
    }

    /// Takes one item of the argument list into the configuration. On an error
    /// the configuration stays as it was.
    pub fn parse_meta_item(&mut self, meta: &MetaItem) -> (r: Result<(), ConfigError>)
        ensures
            match applied(old(self)@, *meta) {
                Ok(c) => r is Ok && final(self)@ == c,
                Err(e) => r == Err::<(), ConfigError>(e) && *final(self) == *old(self),
            },
    {
        let key = &meta.key;
        let feat = is_word(key, "feat");
        let swap = is_word(key, "swap");
        let begin = is_word(key, "begin");
        let begin_with = is_word(key, "begin_with");
        let end = is_word(key, "end");
        let rm = is_word(key, "rm");
        let add = is_word(key, "add");
        if !(feat || swap || begin || begin_with || end || rm || add) {
            return Err(ConfigError::UnknownKey(key.clone()));
        }
        let vs = match item_values(&meta.form) {
            None => {
                return Err(ConfigError::Malformed(key.clone()));
            },
            Some(vs) => vs,
        };
        if feat || swap {
            match &meta.form {
                MetaForm::Value(_) => {
                    if feat {
                        self.feat = vs[0].clone();
                    } else {
                        self.replace = Some(vs[0].clone());
                    }
                },
                _ => {
                    return Err(ConfigError::Malformed(key.clone()));
                },
            }
        } else if begin {
            append_texts(&mut self.begin, &vs);
            proof {
                assert(texts(self.begin@) =~= texts(old(self).begin@) + texts(vs@));
            }
        } else if begin_with {
            append_texts(&mut self.begin_with, &vs);
            proof {
                assert(texts(self.begin_with@) =~= texts(old(self).begin_with@) + texts(vs@));
            }
        } else if end {
            append_texts(&mut self.end, &vs);
            proof {
                assert(texts(self.end@) =~= texts(old(self).end@) + texts(vs@));
            }
        } else if rm {
            append_texts(&mut self.rm, &vs);
            proof {
                assert(texts(self.rm@) =~= texts(old(self).rm@) + texts(vs@));
            }
        } else {
            append_texts(&mut self.add, &vs);
            proof {
                assert(texts(self.add@) =~= texts(old(self).add@) + texts(vs@));
            }
        }
        Ok(())
    }
}

impl Default for HijektConfig {
    /// A configuration in which nothing is set.
    fn default() -> (r: HijektConfig)
        ensures
            r@ == empty_config(),
    {
        let r = HijektConfig {
            feat: String::new(),
            begin: Vec::new(),
            begin_with: Vec::new(),
            end: Vec::new(),
            rm: Vec::new(),
            replace: None,
            add: Vec::new(),
        };
        proof {
            assert(r@.begin =~= Seq::empty());
            assert(r@.begin_with =~= Seq::empty());
            assert(r@.end =~= Seq::empty());
            assert(r@.rm =~= Seq::empty());
            assert(r@.add =~= Seq::empty());
        }
        r
    }
}

/// The parsed arguments of one attribute.
#[derive(Debug, Clone, PartialEq, Eq)]
pub struct HijektArgs {
    pub config: HijektConfig,
}

impl HijektArgs {
    /// Reads the argument list, item by item in source order. The first item
    /// that cannot be taken gives its error; a list that names no feature
    /// flag gives `MissingFeature`.
    pub fn parse(input: &Vec<MetaItem>) -> (r: Result<HijektArgs, ConfigError>)
        ensures
            match parsed(input@) {
                Ok(c) => r is Ok && r->Ok_0.config@ == c && r->Ok_0.config.wf(),
                Err(e) => r == Err::<HijektArgs, ConfigError>(e),
            },
    {
        let mut config = HijektConfig::default();
        let mut i: usize = 0;
        while i < input.len()
            invariant
                i <= input.len(),
                parsed_prefix(input@, i as nat) == Ok::<ConfigView, ConfigError>(config@),
            decreases input.len() - i,
        {
            match config.parse_meta_item(&input[i]) {
                Ok(()) => {},
                Err(e) => {
                    proof {
                        lemma_error_stays(input@, (i + 1) as nat, input.len() as nat);
                    }
                    return Err(e);
                },
            }
            i += 1;
        }
        if config.feat.as_str().unicode_len() == 0 {
            return Err(ConfigError::MissingFeature);
        }
        Ok(HijektArgs { config })
    }
}

/// An item whose key is not recognized is rejected with that key, whatever
/// the configuration holds and whatever follows the key.
pub proof fn lemma_unknown_key_rejected(c: ConfigView, m: MetaItem)
    requires
        !known_key(m.key@),
    ensures
        applied(c, m) == Err::<ConfigView, ConfigError>(ConfigError::UnknownKey(m.key)),
{
}

/// An argument list without an item for the feature flag gives no
/// configuration: where every item can be taken, the error is
/// `MissingFeature`.
pub proof fn lemma_feat_required(items: Seq<MetaItem>)
    requires
        forall|i: int| 0 <= i < items.len() ==> (#[trigger] items[i]).key@ != "feat"@,
    ensures
        parsed(items) is Err,
        parsed_prefix(items, items.len()) is Ok ==> parsed(items) == Err::<ConfigView, ConfigError>(
            ConfigError::MissingFeature,
        ),
{
    lemma_feat_stays_empty(items, items.len());
}

/// Items that do not name the feature flag leave it empty.
pub proof fn lemma_feat_stays_empty(items: Seq<MetaItem>, n: nat)
    requires
        n <= items.len(),
        forall|i: int| 0 <= i < items.len() ==> (#[trigger] items[i]).key@ != "feat"@,
    ensures
        parsed_prefix(items, n) matches Ok(c) ==> c.feat.len() == 0,
    decreases n,
{
    if n > 0 {
        lemma_feat_stays_empty(items, (n - 1) as nat);
        assert(items[n - 1].key@ != "feat"@);
    }
}

/// Once an item has given an error, later items do not change it.
pub proof fn lemma_error_stays(items: Seq<MetaItem>, n: nat, m: nat)
    requires
        n <= m <= items.len(),
        parsed_prefix(items, n) is Err,
    ensures
        parsed_prefix(items, m) == parsed_prefix(items, n),
    decreases m,
{
    if n < m {
        lemma_error_stays(items, n, (m - 1) as nat);
    }
}

} // verus!
