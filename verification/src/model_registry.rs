//! Style descriptors and the registry that holds them.

use vstd::prelude::*;
use crate::error::StylizerError;
use crate::fixed::UNIT;
use crate::profile::Profile;

verus! {

/// What a model asks of its caller: where its payload is, how its tensors
/// are named, and the resolution and normalization of its input.
#[derive(Clone, Debug)]
pub struct ModelMeta {
    /// Where the model payload is fetched from.
    pub model_url: String,
    /// The name of the input tensor.
    pub input_name: String,
    /// The name of the output tensor.
    pub output_name: String,
    /// The width the model works at.
    pub input_width: u32,
    /// The height the model works at.
    pub input_height: u32,
    /// How colour bytes become tensor values.
    pub profile: Profile,
}

/// One style: its name, which is its identity, and what is known of it.
#[derive(Clone, Debug)]
pub struct ModelInfo {
    /// The unique name.
    pub name: String,
    /// The text shown for the style.
    pub display_name: String,
    /// A sentence about the style.
    pub description: String,
    /// The estimated size of the payload, in bytes.
    pub size_bytes: u64,
    /// The blend strength recommended for the style, in millionths.
    pub recommended_strength: i64,
    /// What the model asks of its caller.
    pub meta: ModelMeta,
}

/// Whether no two descriptors share a name.
pub open spec fn names_distinct(styles: Seq<ModelInfo>) -> bool {
    forall|i: int, j: int| 0 <= i < j < styles.len() ==> styles[i].name@ != styles[j].name@
}

/// Whether a descriptor of that name is among `styles`.
pub open spec fn has_name(styles: Seq<ModelInfo>, name: Seq<char>) -> bool {
    exists|i: int| 0 <= i < styles.len() && styles[i].name@ == name
}

/// The place of the descriptor of that name, where there is one.
pub open spec fn position(styles: Seq<ModelInfo>, name: Seq<char>) -> int {
    choose|i: int| 0 <= i < styles.len() && styles[i].name@ == name
}

/// `styles` after `info` is registered: a descriptor of the same name is
/// replaced where it stands, a new name goes to the end.
pub open spec fn register_spec(styles: Seq<ModelInfo>, info: ModelInfo) -> Seq<ModelInfo> {
    if has_name(styles, info.name@) {
        styles.update(position(styles, info.name@), info)
    } else {
        styles.push(info)
    }
}

/// The registry contents after `models` are registered one by one, first
/// to last.
pub open spec fn registered(models: Seq<ModelInfo>) -> Seq<ModelInfo>
    decreases models.len(),
{
    if models.len() == 0 {
        Seq::empty()
    } else {
        register_spec(registered(models.drop_last()), models.last())
    }
}

/// The sum of the size estimates of `styles`.
pub open spec fn total_size(styles: Seq<ModelInfo>) -> int
    decreases styles.len(),
{
    if styles.len() == 0 {
        0
    } else {
        total_size(styles.drop_last()) + styles.last().size_bytes
    }
}

/// Among distinct names, the place of a name is the one index that has it.
pub proof fn lemma_position_unique(styles: Seq<ModelInfo>, i: int)
    requires
        names_distinct(styles),
        0 <= i < styles.len(),
    ensures
        has_name(styles, styles[i].name@),
        position(styles, styles[i].name@) == i,
{
    let name = styles[i].name@;
    let j = position(styles, name);
    assert(0 <= j < styles.len() && styles[j].name@ == name);
    if j < i {
        assert(styles[j].name@ != styles[i].name@);
    } else if i < j {
        assert(styles[i].name@ != styles[j].name@);
    }
}

/// Registering keeps names distinct.
pub proof fn lemma_register_keeps_distinct(styles: Seq<ModelInfo>, info: ModelInfo)
    requires
        names_distinct(styles),
    ensures
        names_distinct(register_spec(styles, info)),
        has_name(register_spec(styles, info), info.name@),
{
    let after = register_spec(styles, info);
    if has_name(styles, info.name@) {
        let p = position(styles, info.name@);
        assert(0 <= p < styles.len() && styles[p].name@ == info.name@);
        assert forall|i: int, j: int| 0 <= i < j < after.len() implies after[i].name@
            != after[j].name@ by {
            assert(after[i].name@ == styles[i].name@);
            assert(after[j].name@ == styles[j].name@);
        }
        assert(after[p].name@ == info.name@);
    } else {
        assert forall|i: int, j: int| 0 <= i < j < after.len() implies after[i].name@
            != after[j].name@ by {
            if j < styles.len() {
                assert(after[i] == styles[i] && after[j] == styles[j]);
            } else {
                assert(after[i] == styles[i]);
                assert(after[j] == info);
            }
        }
        assert(after[styles.len() as int].name@ == info.name@);
    }
}

/// Whatever is registered, the names come out distinct.
pub proof fn lemma_registered_distinct(models: Seq<ModelInfo>)
    ensures
        names_distinct(registered(models)),
    decreases models.len(),
{
    if models.len() > 0 {
        lemma_registered_distinct(models.drop_last());
        lemma_register_keeps_distinct(registered(models.drop_last()), models.last());
    }
}

/// Descriptors whose names are distinct are registered as they stand, in
/// their order.
pub proof fn lemma_registered_in_order(models: Seq<ModelInfo>)
    requires
        names_distinct(models),
    ensures
        registered(models) == models,
    decreases models.len(),
{
    if models.len() > 0 {
        let front = models.drop_last();
        assert forall|i: int, j: int| 0 <= i < j < front.len() implies front[i].name@
            != front[j].name@ by {
            assert(front[i] == models[i] && front[j] == models[j]);
        }
        lemma_registered_in_order(front);
        let last = models.last();
        if has_name(front, last.name@) {
            let p = position(front, last.name@);
            assert(0 <= p < front.len() && front[p].name@ == last.name@);
            assert(front[p] == models[p]);
            assert(models[p].name@ != models[models.len() - 1].name@);
        }
        assert(front.push(last) =~= models);
    } else {
        assert(models =~= Seq::empty());
    }
}

/// Whether `info` is a built-in style with these texts, this size and
/// this resolution: a square model with tensors named `input` and
/// `output`, tensor values in 0..=1 and a recommended strength of one.
pub open spec fn is_default_model(
    info: ModelInfo,
    name: Seq<char>,
    display_name: Seq<char>,
    description: Seq<char>,
    url: Seq<char>,
    size_bytes: int,
    side: int,
) -> bool {
    &&& info.name@ == name
    &&& info.display_name@ == display_name
    &&& info.description@ == description
    &&& info.size_bytes == size_bytes
    &&& info.recommended_strength == UNIT
    &&& info.meta.model_url@ == url
    &&& info.meta.input_name@ == "input"@
    &&& info.meta.output_name@ == "output"@
    &&& info.meta.input_width == side
    &&& info.meta.input_height == side
    &&& info.meta.profile.is_valid()
    &&& info.meta.profile.scale_spec() == UNIT
    &&& forall|c: int|
        0 <= c < 3 ==> info.meta.profile.mean_spec(c) == 0 && info.meta.profile.std_spec(c) == UNIT
}

/// One built-in style.
fn default_model(
    name: &str,
    display_name: &str,
    description: &str,
    url: &str,
    size_bytes: u64,
    side: u32,
) -> (info: ModelInfo)
    ensures
        is_default_model(info, name@, display_name@, description@, url@, size_bytes as int, side as int),
{
    ModelInfo {
        name: name.to_owned(),
        display_name: display_name.to_owned(),
        description: description.to_owned(),
        size_bytes,
        recommended_strength: UNIT,
        meta: ModelMeta {
            model_url: url.to_owned(),
            input_name: "input".to_owned(),
            output_name: "output".to_owned(),
            input_width: side,
            input_height: side,
            profile: Profile::unit_range(),
        },
    }
}

/// The styles that can be asked for, in the order in which they were
/// registered. No two have the same name.
pub struct ModelRegistry {
    models: Vec<ModelInfo>,
}

impl ModelRegistry {
    #[verifier::type_invariant]
    spec fn distinct(self) -> bool {
        names_distinct(self.models@)
    }

    /// The descriptors, in registration order.
    pub closed spec fn styles(self) -> Seq<ModelInfo> {
        self.models@
    }

    /// Whether the registry is one that executable code can hold: its
    /// names are distinct.
    pub open spec fn is_valid(self) -> bool {
        names_distinct(self.styles())
    }

    /// A registry without styles.
    pub fn new() -> (r: ModelRegistry)
        ensures
            r.styles() == Seq::<ModelInfo>::empty(),
    {
        ModelRegistry { models: Vec::new() }
    }

    /// The registry of the five built-in styles.
    pub fn with_default_models() -> (r: ModelRegistry)
        ensures
            r.is_valid(),
            r.styles().len() == 5,
            is_default_model(
                r.styles()[0],
                "van-gogh"@,
                "Van Gogh Starry Night"@,
                "Impressionist style inspired by Van Gogh's Starry Night with swirling brushstrokes"@,
                "/models/van_gogh_style_transfer.onnx"@,
                6_800_000,
                256,
            ),
            is_default_model(
                r.styles()[1],
                "picasso"@,
                "Picasso Cubist Style"@,
                "Cubist abstraction inspired by Picasso's geometric forms and bold colors"@,
                "/models/picasso_style_transfer.onnx"@,
                7_200_000,
                256,
            ),
            is_default_model(
                r.styles()[2],
                "cyberpunk"@,
                "Cyberpunk Neon Aesthetic"@,
                "Futuristic cyberpunk aesthetic with neon colors and digital effects"@,
                "/models/cyberpunk_style_transfer.onnx"@,
                8_100_000,
                256,
            ),
            is_default_model(
                r.styles()[3],
                "watercolor"@,
                "Watercolor Painting"@,
                "Soft watercolor painting style with flowing colors and gentle blending"@,
                "/models/watercolor_style_transfer.onnx"@,
                5_900_000,
                256,
            ),
            is_default_model(
                r.styles()[4],
                "oil-painting"@,
                "Classic Oil Painting"@,
                "Classical oil painting style with rich textures and deep colors"@,
                "/models/oil_painting_style_transfer.onnx"@,
                9_500_000,
                256,
            ),
    {
        let mut models: Vec<ModelInfo> = Vec::with_capacity(5);
        models.push(
            default_model(
                "van-gogh",
                "Van Gogh Starry Night",
                "Impressionist style inspired by Van Gogh's Starry Night with swirling brushstrokes",
                "/models/van_gogh_style_transfer.onnx",
                6_800_000,
                256,
            ),
        );
        models.push(
            default_model(
                "picasso",
                "Picasso Cubist Style",
                "Cubist abstraction inspired by Picasso's geometric forms and bold colors",
                "/models/picasso_style_transfer.onnx",
                7_200_000,
                256,
            ),
        );
        models.push(
            default_model(
                "cyberpunk",
                "Cyberpunk Neon Aesthetic",
                "Futuristic cyberpunk aesthetic with neon colors and digital effects",
                "/models/cyberpunk_style_transfer.onnx",
                8_100_000,
                256,
            ),
        );
        models.push(
            default_model(
                "watercolor",
                "Watercolor Painting",
                "Soft watercolor painting style with flowing colors and gentle blending",
                "/models/watercolor_style_transfer.onnx",
                5_900_000,
                256,
            ),
        );
        models.push(
            default_model(
                "oil-painting",
                "Classic Oil Painting",
                "Classical oil painting style with rich textures and deep colors",
                "/models/oil_painting_style_transfer.onnx",
                9_500_000,
                256,
            ),
        );
        proof {
            reveal_strlit("van-gogh");
            reveal_strlit("picasso");
            reveal_strlit("cyberpunk");
            reveal_strlit("watercolor");
            reveal_strlit("oil-painting");
            assert(models@[0].name@.len() == 8);
            assert(models@[1].name@.len() == 7);
            assert(models@[2].name@.len() == 9);
            assert(models@[3].name@.len() == 10);
            assert(models@[4].name@.len() == 12);
            assert(names_distinct(models@));
            lemma_registered_in_order(models@);
        }
        ModelRegistry::from_models(models)
    }

    /// The registry of the five gallery styles, which go by their display
    /// names.
    pub fn with_gallery_models() -> (r: ModelRegistry)
        ensures
            r.is_valid(),
            r.styles().len() == 5,
            is_default_model(
                r.styles()[0],
                "Van Gogh - Starry Night"@,
                "Van Gogh - Starry Night"@,
                ""@,
                "models/starry_night.onnx"@,
                8_500_000,
                512,
            ),
            is_default_model(
                r.styles()[1],
                "Picasso - Cubist"@,
                "Picasso - Cubist"@,
                ""@,
                "models/picasso_cubist.onnx"@,
                8_200_000,
                512,
            ),
            is_default_model(
                r.styles()[2],
                "Japanese Ukiyo-e"@,
                "Japanese Ukiyo-e"@,
                ""@,
                "models/ukiyo_e.onnx"@,
                7_800_000,
                512,
            ),
            is_default_model(
                r.styles()[3],
                "Cyberpunk Neon"@,
                "Cyberpunk Neon"@,
                ""@,
                "models/cyberpunk.onnx"@,
                9_100_000,
                512,
            ),
            is_default_model(
                r.styles()[4],
                "Abstract Expressionism"@,
                "Abstract Expressionism"@,
                ""@,
                "models/abstract_expr.onnx"@,
                8_700_000,
                512,
            ),
    {
        let mut models: Vec<ModelInfo> = Vec::with_capacity(5);
        models.push(
            default_model(
                "Van Gogh - Starry Night",
                "Van Gogh - Starry Night",
                "",
                "models/starry_night.onnx",
                8_500_000,
                512,
            ),
        );
        models.push(
            default_model(
                "Picasso - Cubist",
                "Picasso - Cubist",
                "",
                "models/picasso_cubist.onnx",
                8_200_000,
                512,
            ),
        );
        models.push(
            default_model(
                "Japanese Ukiyo-e",
                "Japanese Ukiyo-e",
                "",
                "models/ukiyo_e.onnx",
                7_800_000,
                512,
            ),
        );
        models.push(
            default_model("Cyberpunk Neon", "Cyberpunk Neon", "", "models/cyberpunk.onnx", 9_100_000, 512),
        );
        models.push(
            default_model(
                "Abstract Expressionism",
                "Abstract Expressionism",
                "",
                "models/abstract_expr.onnx",
                8_700_000,
                512,
            ),
        );
        proof {
            reveal_strlit("Van Gogh - Starry Night");
            reveal_strlit("Picasso - Cubist");
            reveal_strlit("Japanese Ukiyo-e");
            reveal_strlit("Cyberpunk Neon");
            reveal_strlit("Abstract Expressionism");
            assert(models@[0].name@.len() == 23);
            assert(models@[1].name@.len() == 16 && models@[1].name@[0] == 'P');
            assert(models@[2].name@.len() == 16 && models@[2].name@[0] == 'J');
            assert(models@[3].name@.len() == 14);
            assert(models@[4].name@.len() == 22);
            assert(names_distinct(models@));
            lemma_registered_in_order(models@);
        }
        ModelRegistry::from_models(models)
    }

    /// A registry of the given descriptors, registered first to last: of
    /// two with the same name the later one stands, in the earlier one's
    /// place.
    pub fn from_models(models: Vec<ModelInfo>) -> (r: ModelRegistry)
        ensures
            r.styles() == registered(models@),
            r.is_valid(),
    {
        let ghost all = models@;
        let mut registry = ModelRegistry::new();
        for info in it: models
            invariant
                it.seq() == all,
                registry.styles() == registered(all.take(it.index() as int)),
        {
            proof {
                let k = it.index() as int;
                assert(all.take(k + 1).drop_last() =~= all.take(k));
                assert(all.take(k + 1).last() == all[k]);
            }
            registry = registry.register(info);
        }
        proof {
            assert(all.take(all.len() as int) =~= all);
            lemma_registered_distinct(all);
        }
        registry
    }

    /// The place of the descriptor of that name.
    pub fn find(&self, name: &str) -> (r: Option<usize>)
        ensures
            r is Some <==> has_name(self.styles(), name@),
            r matches Some(i) ==> i == position(self.styles(), name@) && i < self.styles().len(),
    {
        proof {
            use_type_invariant(self);
        }
        let key: String = name.to_owned();
        let n: usize = self.models.len();
        let mut i: usize = 0;
        while i < n
            invariant
                n == self.models@.len(),
                names_distinct(self.models@),
                key@ == name@,
                0 <= i <= n,
                forall|k: int| 0 <= k < i ==> self.models@[k].name@ != name@,
            decreases n - i,
        {
            if self.models[i].name == key {
                proof {
                    lemma_position_unique(self.models@, i as int);
                }
                return Some(i);
            }
            i += 1;
        }
        None
    }

    fn register(self, info: ModelInfo) -> (r: ModelRegistry)
        ensures
            r.styles() == register_spec(self.styles(), info),
    {
        proof {
            use_type_invariant(&self);
            lemma_register_keeps_distinct(self.models@, info);
        }
        let place = self.find(info.name.as_str());
        let mut models = self.models;
        match place {
            Some(i) => {
                models.set(i, info);
            },
            None => {
                models.push(info);
            },
        }
        ModelRegistry { models }
    }

    /// Every style, in registration order.
    pub fn get_styles(&self) -> (r: &Vec<ModelInfo>)
        ensures
            r@ == self.styles(),
            names_distinct(r@),
    {
        proof {
            use_type_invariant(self);
        }
        &self.models
    }

    /// The descriptor of the style of that name, whole as it was
    /// registered, or `StyleNotFound` where no style has the name.
    pub fn get_model_info(&self, name: &str) -> (r: Result<&ModelInfo, StylizerError>)
        ensures
            has_name(self.styles(), name@) ==> r is Ok && *r->Ok_0 == self.styles()[position(
                self.styles(),
                name@,
            )] && r->Ok_0.name@ == name@,
            !has_name(self.styles(), name@) ==> r == Err::<&ModelInfo, StylizerError>(
                StylizerError::StyleNotFound,
            ),
    {
        match self.find(name) {
            Some(i) => Ok(&self.models[i]),
            None => Err(StylizerError::StyleNotFound),
        }
    }

    /// The descriptor at a place in the registration order.
    pub fn style_at(&self, index: usize) -> (r: &ModelInfo)
        requires
            index < self.styles().len(),
        ensures
            *r == self.styles()[index as int],
    {
        &self.models[index]
    }

    /// How many styles are registered.
    pub fn get_model_count(&self) -> (n: usize)
        ensures
            n == self.styles().len(),
    {
        self.models.len()
    }

    /// The sum of the size estimates of all styles, or the largest number
    /// that 64 bits hold where the sum is above it.
    pub fn get_total_model_size(&self) -> (total: u64)
        ensures
            total == if total_size(self.styles()) > u64::MAX {
                u64::MAX as int
            } else {
                total_size(self.styles())
            },
    {
        let n: usize = self.models.len();
        let mut total: u64 = 0;
        let mut i: usize = 0;
        while i < n
            invariant
                n == self.models@.len(),
                0 <= i <= n,
                total == if total_size(self.models@.take(i as int)) > u64::MAX {
                    u64::MAX as int
                } else {
                    total_size(self.models@.take(i as int))
                },
                total_size(self.models@.take(i as int)) >= 0,
            decreases n - i,
        {
            proof {
                assert(self.models@.take(i + 1).drop_last() =~= self.models@.take(i as int));
                assert(self.models@.take(i + 1).last() == self.models@[i as int]);
            }
            total = total.saturating_add(self.models[i].size_bytes);
            i += 1;
        }
        proof {
            assert(self.models@.take(n as int) =~= self.models@);
        }
        total
    }

    /// The names of all styles, in registration order.
    pub fn get_available_styles(&self) -> (names: Vec<String>)
        ensures
            names@.len() == self.styles().len(),
            forall|i: int| 0 <= i < names@.len() ==> names@[i]@ == self.styles()[i].name@,
    {
        let n: usize = self.models.len();
        let mut names: Vec<String> = Vec::with_capacity(n);
        let mut i: usize = 0;
        while i < n
            invariant
                n == self.models@.len(),
                0 <= i <= n,
                names@.len() == i,
                forall|k: int| 0 <= k < i ==> names@[k]@ == self.models@[k].name@,
            decreases n - i,
        {
            names.push(self.models[i].name.clone());
            i += 1;
        }
        names
    }
}

} // verus!
