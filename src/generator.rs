use vstd::prelude::*;
use rand::rngs::ThreadRng;
use crate::charset::{chars_of, DIGITS, LOWERCASE, SYMBOLS, UPPERCASE};
use crate::random::{choose_char, shuffle_positions, string_of};

verus! {

/// What a run of the generator is asked for.
pub struct GeneratorConfig {
    pub length: usize,
    pub count: usize,
    pub use_lower: bool,
    pub use_upper: bool,
    pub use_digits: bool,
    pub use_symbols: bool,
    pub custom_chars: Option<String>,
}

/// Why a generator could not be built from a configuration.
#[derive(Debug, PartialEq, Eq, Structural)]
pub enum ConfigError {
    /// `length` cannot hold one character from each of the `required` sets.
    LengthTooShort { length: usize, required: usize },
    /// No category is enabled and no custom set is given.
    NoCharacterSets,
}

/// The literal set of each enabled category, in the order lowercase,
/// uppercase, digits, symbols.
pub open spec fn default_sets_spec(
    use_lower: bool,
    use_upper: bool,
    use_digits: bool,
    use_symbols: bool,
) -> Seq<Seq<char>> {
    (if use_lower { seq![LOWERCASE@] } else { Seq::empty() })
        + (if use_upper { seq![UPPERCASE@] } else { Seq::empty() })
        + (if use_digits { seq![DIGITS@] } else { Seq::empty() })
        + (if use_symbols { seq![SYMBOLS@] } else { Seq::empty() })
}

/// The custom set, as one more required set when it is present and non-empty.
pub open spec fn custom_set_spec(custom: Option<String>) -> Seq<Seq<char>> {
    match custom {
        Some(s) => if s@.len() > 0 { seq![s@] } else { Seq::empty() },
        None => Seq::empty(),
    }
}

/// The contents of each vector of `v`.
pub open spec fn views(v: Seq<Vec<char>>) -> Seq<Seq<char>> {
    v.map_values(|x: Vec<char>| x@)
}

/// Every character that occurs in one of `sets`.
pub open spec fn alphabet_of(sets: Seq<Seq<char>>) -> Set<char> {
    Set::new(|c: char| exists|k: int| 0 <= k < sets.len() && #[trigger] sets[k].contains(c))
}

/// Some character of one of the first `i` sets is `c`.
pub open spec fn in_first_sets(sets: Seq<Seq<char>>, i: int, c: char) -> bool {
    exists|k: int| 0 <= k < i && #[trigger] sets[k].contains(c)
}

/// The error that building a generator from `config` must give, if any: the
/// length check comes first, then the check that some set was selected.
pub open spec fn config_error(config: GeneratorConfig) -> Option<ConfigError> {
    let n = config.required_sets().len();
    if config.length < n {
        Some(ConfigError::LengthTooShort { length: config.length, required: n as usize })
    } else if n == 0 {
        Some(ConfigError::NoCharacterSets)
    } else {
        None
    }
}

/// `f` gives each of `sets` its own position of `pw`, holding a character
/// of that set.
pub open spec fn assigns(pw: Seq<char>, sets: Seq<Seq<char>>, f: Seq<int>) -> bool {
    &&& f.len() == sets.len()
    &&& f.no_duplicates()
    &&& forall|k: int|
        0 <= k < sets.len() ==> 0 <= #[trigger] f[k] < pw.len() && sets[k].contains(pw[f[k]])
}

/// Every set of `sets` has a character in `pw`, each at a position of its own.
pub open spec fn covers(pw: Seq<char>, sets: Seq<Seq<char>>) -> bool {
    exists|f: Seq<int>| #[trigger] assigns(pw, sets, f)
}

/// Every character of `pw` is in `alphabet`.
pub open spec fn within(pw: Seq<char>, alphabet: Set<char>) -> bool {
    forall|i: int| 0 <= i < pw.len() ==> alphabet.contains(#[trigger] pw[i])
}

/// `pw` has the given length, takes a character from every one of `sets`,
/// and takes nothing from outside their union.
pub open spec fn is_valid_password(pw: Seq<char>, sets: Seq<Seq<char>>, length: int) -> bool {
    &&& pw.len() == length
    &&& covers(pw, sets)
    &&& within(pw, alphabet_of(sets))
}

impl GeneratorConfig {
    /// The sets from which every password takes at least one character.
    pub open spec fn required_sets(&self) -> Seq<Seq<char>> {
        default_sets_spec(self.use_lower, self.use_upper, self.use_digits, self.use_symbols)
            + custom_set_spec(self.custom_chars)
    }

    /// The characters from which the rest of a password is filled.
    pub open spec fn full_alphabet(&self) -> Set<char> {
        alphabet_of(self.required_sets())
    }
}

/// Every required set of a configuration holds at least one character.
pub proof fn lemma_required_sets_non_empty(config: GeneratorConfig)
    ensures
        forall|k: int|
            0 <= k < config.required_sets().len() ==> #[trigger] config.required_sets()[k].len() > 0,
{
    reveal_strlit("abcdefghijklmnopqrstuvwxyz");
    reveal_strlit("ABCDEFGHIJKLMNOPQRSTUVWXYZ");
    reveal_strlit("0123456789");
    reveal_strlit("!@#$%^&*()_-+=[]{}|;:,.<>?");
}

/// The required sets are one per enabled category, plus one for a
/// non-empty custom set.
pub proof fn lemma_required_sets_count(config: GeneratorConfig)
    ensures
        config.required_sets().len() == (if config.use_lower { 1int } else { 0 }) + (
        if config.use_upper { 1int } else { 0 }) + (if config.use_digits { 1int } else { 0 }) + (
        if config.use_symbols { 1int } else { 0 }) + (match config.custom_chars {
            Some(s) => if s@.len() > 0 { 1int } else { 0 },
            None => 0,
        }),
{
}

/// A length shorter than the number of required sets is refused, whatever
/// the sets are.
pub proof fn lemma_short_length_rejected(config: GeneratorConfig)
    requires
        config.length < config.required_sets().len(),
    ensures
        config_error(config) == Some(
            ConfigError::LengthTooShort {
                length: config.length,
                required: config.required_sets().len() as usize,
            },
        ),
{
}

/// With no category enabled and no custom set, building a generator is
/// refused for every length.
pub proof fn lemma_no_sets_rejected(config: GeneratorConfig)
    requires
        !config.use_lower,
        !config.use_upper,
        !config.use_digits,
        !config.use_symbols,
        config.custom_chars is None,
    ensures
        config_error(config) == Some(ConfigError::NoCharacterSets),
{
    assert(config.required_sets() =~= Seq::<Seq<char>>::empty());
}

/// Whether `c` is one of the characters of `v`.
fn has_char(v: &Vec<char>, c: char) -> (b: bool)
    ensures
        b == v@.contains(c),
{
    let mut i: usize = 0;
    while i < v.len()
        invariant
            i <= v@.len(),
            forall|j: int| 0 <= j < i ==> v@[j] != c,
        decreases v.len() - i,
    {
        if v[i] == c {
            return true;
        }
        i += 1;
    }
    false
}

/// Each character of `sets` once, in the order of first occurrence.
fn union_of(sets: &Vec<Vec<char>>) -> (r: Vec<char>)
    ensures
        r@.no_duplicates(),
        forall|c: char| r@.contains(c) <==> alphabet_of(views(sets@)).contains(c),
{
    let ghost sv = views(sets@);
    let mut r: Vec<char> = Vec::new();
    let mut i: usize = 0;
    while i < sets.len()
        invariant
            sv == views(sets@),
            i <= sets.len(),
            r@.no_duplicates(),
            forall|c: char| r@.contains(c) <==> in_first_sets(sv, i as int, c),
        decreases sets.len() - i,
    {
        let set = &sets[i];
        assert(set@ == sv[i as int]);
        let mut j: usize = 0;
        while j < set.len()
            invariant
                sv == views(sets@),
                i < sets.len(),
                set@ == sv[i as int],
                j <= set@.len(),
                r@.no_duplicates(),
                forall|c: char|
                    r@.contains(c) <==> (in_first_sets(sv, i as int, c) || set@.subrange(
                        0,
                        j as int,
                    ).contains(c)),
            decreases set.len() - j,
        {
            let c = set[j];
            let ghost r0 = r@;
            if !has_char(&r, c) {
                r.push(c);
                assert forall|d: char| r@.contains(d) <==> (r0.contains(d) || d == c) by {
                    if r0.contains(d) {
                        let t = choose|t: int| 0 <= t < r0.len() && r0[t] == d;
                        assert(r@[t] == d);
                    }
                    assert(r@[r0.len() as int] == c);
                }
            }
            assert(set@.subrange(0, j + 1) =~= set@.subrange(0, j as int).push(c));
            assert forall|d: char|
                r@.contains(d) <==> (in_first_sets(sv, i as int, d) || set@.subrange(
                    0,
                    j + 1,
                ).contains(d)) by {
                assert(r@.contains(d) <==> (r0.contains(d) || d == c));
                if set@.subrange(0, j as int).push(c).contains(d) && d != c {
                    let t = choose|t: int|
                        0 <= t < j + 1 && #[trigger] set@.subrange(0, j as int).push(c)[t] == d;
                    assert(set@.subrange(0, j as int)[t] == d);
                }
                assert(set@.subrange(0, j as int).push(c)[j as int] == c);
            }
            j += 1;
        }
        assert(set@.subrange(0, j as int) =~= set@);
        assert forall|c: char| in_first_sets(sv, i + 1, c) <==> (in_first_sets(sv, i as int, c)
            || set@.contains(c)) by {
            if in_first_sets(sv, i + 1, c) {
                let k = choose|k: int| 0 <= k < i + 1 && #[trigger] sv[k].contains(c);
                if k < i {
                    assert(in_first_sets(sv, i as int, c));
                }
            }
            if set@.contains(c) {
                assert(sv[i as int].contains(c));
            }
        }
        i += 1;
    }
    assert forall|c: char| r@.contains(c) <==> alphabet_of(sv).contains(c) by {
        if in_first_sets(sv, sv.len() as int, c) {
            let k = choose|k: int| 0 <= k < sv.len() && #[trigger] sv[k].contains(c);
            assert(alphabet_of(sv).contains(c));
        }
    }
    r
}

/// A generator whose sets and length were checked against each other.
pub struct PasswordGenerator {
    final_charset: Vec<char>,
    required_sets: Vec<Vec<char>>,
    length: usize,
    count: usize,
}

impl PasswordGenerator {
    /// The sets from which every password takes at least one character.
    pub closed spec fn required(&self) -> Seq<Seq<char>> {
        views(self.required_sets@)
    }

    /// The characters from which the rest of a password is filled.
    pub closed spec fn alphabet(&self) -> Set<char> {
        alphabet_of(self.required())
    }

    /// The characters from which the fill is drawn, each once.
    pub closed spec fn fill(&self) -> Seq<char> {
        self.final_charset@
    }

    /// The length of every password.
    pub closed spec fn spec_length(&self) -> usize {
        self.length
    }

    /// The number of passwords in a batch.
    pub closed spec fn spec_count(&self) -> usize {
        self.count
    }

    /// The sets are non-empty, there is at least one, the length holds one
    /// character of each, and the fill alphabet is their union.
    pub closed spec fn wf(&self) -> bool {
        &&& self.required().len() > 0
        &&& self.required().len() <= self.length
        &&& forall|k: int| 0 <= k < self.required().len() ==> #[trigger] self.required()[k].len() > 0
        &&& self.final_charset@.len() > 0
        &&& self.final_charset@.no_duplicates()
        &&& forall|c: char|
            #![trigger self.final_charset@.contains(c)]
            #![trigger self.alphabet().contains(c)]
            self.final_charset@.contains(c) <==> self.alphabet().contains(c)
    }

    /// The literal sets of the enabled categories, in the fixed order.
    fn build_default_sets(config: &GeneratorConfig) -> (r: Vec<Vec<char>>)
        ensures
            views(r@) == default_sets_spec(
                config.use_lower,
                config.use_upper,
                config.use_digits,
                config.use_symbols,
            ),
    {
        let mut r: Vec<Vec<char>> = Vec::new();
        if config.use_lower {
            r.push(chars_of(LOWERCASE));
        }
        assert(views(r@) =~= (if config.use_lower { seq![LOWERCASE@] } else { Seq::empty() }));
        let ghost s1 = views(r@);
        if config.use_upper {
            r.push(chars_of(UPPERCASE));
        }
        assert(views(r@) =~= s1 + (if config.use_upper { seq![UPPERCASE@] } else { Seq::empty() }));
        let ghost s2 = views(r@);
        if config.use_digits {
            r.push(chars_of(DIGITS));
        }
        assert(views(r@) =~= s2 + (if config.use_digits { seq![DIGITS@] } else { Seq::empty() }));
        let ghost s3 = views(r@);
        if config.use_symbols {
            r.push(chars_of(SYMBOLS));
        }
        assert(views(r@) =~= s3 + (if config.use_symbols { seq![SYMBOLS@] } else { Seq::empty() }));
        r
    }

    /// The default sets followed by the custom set, when it is non-empty.
    fn build_required_sets(config: &GeneratorConfig) -> (r: Vec<Vec<char>>)
        ensures
            views(r@) == config.required_sets(),
    {
        let mut r = Self::build_default_sets(config);
        let ghost s0 = views(r@);
        match &config.custom_chars {
            Some(custom) => {
                if !custom.as_str().is_empty() {
                    r.push(chars_of(custom.as_str()));
                }
            },
            None => {},
        }
        assert(views(r@) =~= s0 + custom_set_spec(config.custom_chars));
        r
    }

    /// Builds the sets of `config` and checks that a password of the asked
    /// length can take one character from each, and that there is at least
    /// one set.
    pub fn new(config: GeneratorConfig) -> (r: Result<PasswordGenerator, ConfigError>)
        ensures
            r is Err <==> config_error(config) is Some,
            r matches Err(e) ==> config_error(config) == Some(e),
            r matches Ok(g) ==> {
                &&& g.wf()
                &&& g.required() == config.required_sets()
                &&& g.alphabet() == config.full_alphabet()
                &&& g.fill().no_duplicates()
                &&& g.fill().to_set() == config.full_alphabet()
                &&& g.fill().len() == config.full_alphabet().len()
                &&& g.spec_length() == config.length
                &&& g.spec_count() == config.count
            },
    {
        let required_sets = Self::build_required_sets(&config);
        let final_charset = union_of(&required_sets);
        proof {
            lemma_required_sets_non_empty(config);
        }
        if config.length < required_sets.len() {
            return Err(
                ConfigError::LengthTooShort { length: config.length, required: required_sets.len() },
            );
        }
        if final_charset.len() == 0 {
            proof {
                let sv = views(required_sets@);
                if sv.len() > 0 {
                    assert(sv[0].contains(sv[0][0]));
                    assert(alphabet_of(sv).contains(sv[0][0]));
                    assert(final_charset@.contains(sv[0][0]));
                }
            }
            return Err(ConfigError::NoCharacterSets);
        }
        proof {
            let sv = views(required_sets@);
            assert(final_charset@.contains(final_charset@[0]));
            assert(alphabet_of(sv).contains(final_charset@[0]));
        }
        assert(final_charset@.to_set() =~= alphabet_of(views(required_sets@)));
        proof {
            final_charset@.unique_seq_to_set();
        }
        let g = PasswordGenerator {
            final_charset,
            required_sets,
            length: config.length,
            count: config.count,
        };
        Ok(g)
    }

    /// One password: one character drawn from each required set, the rest
    /// drawn from the union of the sets, then put in a random order of
    /// positions. Each required set keeps a position of its own.
    pub fn create_one_password(&self, rng: &mut ThreadRng) -> (r: String)
        requires
            self.wf(),
        ensures
            is_valid_password(r@, self.required(), self.spec_length() as int),
    {
        let ghost sv = self.required();
        let ghost alpha = self.alphabet();
        let n = self.required_sets.len();
        let mut password_chars: Vec<char> = Vec::with_capacity(self.length);
        let mut i: usize = 0;
        while i < n
            invariant
                self.wf(),
                sv == self.required(),
                alpha == alphabet_of(sv),
                n == sv.len(),
                i <= n,
                password_chars@.len() == i,
                forall|k: int| 0 <= k < i ==> #[trigger] sv[k].contains(password_chars@[k]),
                within(password_chars@, alpha),
            decreases n - i,
        {
            assert(self.required_sets@[i as int]@ == sv[i as int]);
            let c = choose_char(&self.required_sets[i], rng);
            assert(sv[i as int].contains(c));
            assert(alpha.contains(c));
            password_chars.push(c);
            i += 1;
        }
        let fill = self.length - n;
        let mut j: usize = 0;
        while j < fill
            invariant
                self.wf(),
                sv == self.required(),
                alpha == alphabet_of(sv),
                n == sv.len(),
                fill == self.length - n,
                j <= fill,
                password_chars@.len() == n + j,
                forall|k: int| 0 <= k < n ==> #[trigger] sv[k].contains(password_chars@[k]),
                within(password_chars@, alpha),
            decreases fill - j,
        {
            let c = choose_char(&self.final_charset, rng);
            assert(self.final_charset@.contains(c));
            assert(alpha.contains(c));
            password_chars.push(c);
            j += 1;
        }
        let total = password_chars.len();
        let mut order: Vec<usize> = Vec::new();
        let mut p: usize = 0;
        while p < total
            invariant
                total == password_chars@.len(),
                p <= total,
                order@.len() == p,
                forall|q: int| 0 <= q < p ==> #[trigger] order@[q] == q,
            decreases total - p,
        {
            order.push(p);
            p += 1;
        }
        let ghost identity = order@;
        shuffle_positions(&mut order, rng);
        let ghost before = password_chars@;
        proof {
            broadcast use vstd::seq_lib::group_to_multiset_ensures;

            assert(order@.len() == identity.len()) by {
                assert(order@.to_multiset().len() == identity.to_multiset().len());
            }
            assert forall|q: int| 0 <= q < order@.len() implies #[trigger] order@[q] < total by {
                assert(order@.contains(order@[q]));
                assert(order@.to_multiset().count(order@[q]) > 0);
                assert(identity.to_multiset().count(order@[q]) > 0);
                assert(identity.contains(order@[q]));
            }
            assert forall|m: int| 0 <= m < total implies #[trigger] order@.contains(m as usize) by {
                assert(identity[m] == m as usize);
                assert(identity.contains(m as usize));
                assert(identity.to_multiset().count(m as usize) > 0);
                assert(order@.to_multiset().count(m as usize) > 0);
            }
        }
        let mut password: Vec<char> = Vec::new();
        let mut q: usize = 0;
        while q < total
            invariant
                total == before.len(),
                order@.len() == total,
                forall|t: int| 0 <= t < total ==> #[trigger] order@[t] < total,
                before == password_chars@,
                q <= total,
                password@.len() == q,
                forall|t: int| 0 <= t < q ==> #[trigger] password@[t] == before[order@[t] as int],
            decreases total - q,
        {
            password.push(password_chars[order[q]]);
            q += 1;
        }
        proof {
            let after = password@;
            let f = Seq::new(
                n as nat,
                |k: int| choose|t: int| 0 <= t < total && order@[t] == k as usize,
            );
            assert forall|k: int| 0 <= k < n implies {
                &&& 0 <= #[trigger] f[k] < total
                &&& order@[f[k]] == k as usize
            } by {
                assert(order@.contains(k as usize));
            }
            assert(f.no_duplicates()) by {
                assert forall|a: int, b: int| 0 <= a < f.len() && 0 <= b < f.len() && a != b implies f[a]
                    != f[b] by {
                    assert(order@[f[a]] == a as usize);
                    assert(order@[f[b]] == b as usize);
                }
            }
            assert forall|k: int| 0 <= k < sv.len() implies 0 <= #[trigger] f[k] < after.len()
                && sv[k].contains(after[f[k]]) by {
                assert(order@[f[k]] == k as usize);
                assert(after[f[k]] == before[k]);
            }
            assert(assigns(after, sv, f));
            assert forall|t: int| 0 <= t < after.len() implies alpha.contains(#[trigger] after[t]) by {
                assert(after[t] == before[order@[t] as int]);
            }
            assert(after.len() == self.length);
            assert(covers(after, sv));
            assert(within(after, alpha));
        }
        string_of(&password)
    }
}

/// Builds a generator from `config` and draws `config.count` passwords from
/// one random source.
pub fn generate_passwords(config: GeneratorConfig) -> (r: Result<Vec<String>, ConfigError>)
    ensures
        r is Err <==> config_error(config) is Some,
        r matches Err(e) ==> config_error(config) == Some(e),
        r matches Ok(v) ==> {
            &&& v@.len() == config.count
            &&& forall|i: int|
                0 <= i < v@.len() ==> is_valid_password(
                    #[trigger] v@[i]@,
                    config.required_sets(),
                    config.length as int,
                )
            &&& forall|i: int, j: int|
                0 <= i < v@.len() && 0 <= j < v@[i]@.len() ==> config.full_alphabet().contains(
                    #[trigger] v@[i]@[j],
                )
        },
{
    let ghost sets = config.required_sets();
    let ghost length = config.length;
    let generator = match PasswordGenerator::new(config) {
        Ok(g) => g,
        Err(e) => {
            return Err(e);
        },
    };
    let mut rng = rand::thread_rng();
    let mut passwords: Vec<String> = Vec::new();
    let mut i: usize = 0;
    while i < generator.count
        invariant
            generator.wf(),
            generator.required() == sets,
            generator.spec_length() == length,
            i <= generator.spec_count(),
            passwords@.len() == i,
            forall|k: int|
                0 <= k < i ==> is_valid_password(#[trigger] passwords@[k]@, sets, length as int),
        decreases generator.spec_count() - i,
    {
        let password = generator.create_one_password(&mut rng);
        passwords.push(password);
        i += 1;
    }
    assert forall|i: int, j: int|
        0 <= i < passwords@.len() && 0 <= j < passwords@[i]@.len() implies alphabet_of(sets).contains(
        #[trigger] passwords@[i]@[j],
    ) by {
        assert(is_valid_password(passwords@[i]@, sets, length as int));
    }
    Ok(passwords)
}

} // verus!
