use kas_verified::view::clerk::{
    generator_update_token, keyed_update_token, min_len, Clerk, DataGenerator, DataLen, GeneratorChanges,
    IndexedGenerator, Token, TokenChanges,
};

/// Every even index `i` has the key `i / 2`, whose item is `key * scale`
struct Halves {
    scale: u32,
}

impl Clerk<usize> for Halves {
    type Data = ();
    type Item = u32;

    fn len(&self, _: &(), lbound: usize) -> DataLen<usize> {
        DataLen::LBound(lbound)
    }
}

impl DataGenerator<usize> for Halves {
    type Key = u32;

    fn spec_key(&self, data: (), index: usize) -> Option<u32> {
        self.key(&data, index)
    }

    fn spec_generate(&self, data: (), key: u32) -> u32 {
        self.generate(&data, &key)
    }

    fn update(&mut self, _: &()) -> GeneratorChanges<usize> {
        GeneratorChanges::Any
    }

    fn key(&self, _: &(), index: usize) -> Option<u32> {
        if index % 2 == 0 {
            Some((index / 2) as u32)
        } else {
            None
        }
    }

    fn generate(&self, _: &(), key: &u32) -> u32 {
        key * self.scale
    }
}

fn pair(t: &Option<Token<u32, u32>>) -> Option<(u32, u32)> {
    t.as_ref().map(|t| (t.key, t.item))
}

#[test]
fn keyed_tokens() {
    let mut g = Halves { scale: 10 };
    let mut token: Option<Token<u32, u32>> = None;
    // a key other than the index: index 6 has key 3
    assert_eq!(keyed_update_token(&g, &(), 6, false, &mut token), TokenChanges::Any);
    assert_eq!(pair(&token), Some((3, 30)));
    // same key, no update requested: kept
    assert_eq!(keyed_update_token(&g, &(), 6, false, &mut token), TokenChanges::NoChange);
    // same key, item unchanged
    assert_eq!(keyed_update_token(&g, &(), 6, true, &mut token), TokenChanges::NoChange);
    // same key, item changed
    g.scale = 20;
    assert_eq!(keyed_update_token(&g, &(), 6, true, &mut token), TokenChanges::SameKey);
    assert_eq!(pair(&token), Some((3, 60)));
    // another key
    assert_eq!(keyed_update_token(&g, &(), 2, false, &mut token), TokenChanges::Any);
    assert_eq!(pair(&token), Some((1, 20)));
    // no key: the token is cleared
    assert_eq!(keyed_update_token(&g, &(), 3, false, &mut token), TokenChanges::NoChange);
    assert_eq!(pair(&token), None);
}

#[test]
fn min_len_of_known_length() {
    assert_eq!(min_len(Some(7usize), 100), 7);
}

/// Item `index * scale` for each index, as an indexed generator and as a
/// keyed generator whose key is the index
struct Scaled {
    scale: usize,
}

impl Clerk<usize> for Scaled {
    type Data = ();
    type Item = usize;

    fn len(&self, _: &(), lbound: usize) -> DataLen<usize> {
        DataLen::LBound(lbound)
    }
}

impl IndexedGenerator<usize> for Scaled {
    fn spec_generate(&self, data: (), index: usize) -> usize {
        IndexedGenerator::generate(self, &data, index)
    }

    fn update(&mut self, _: &()) -> GeneratorChanges<usize> {
        GeneratorChanges::Any
    }

    fn generate(&self, _: &(), index: usize) -> usize {
        index * self.scale
    }
}

impl DataGenerator<usize> for Scaled {
    type Key = usize;

    fn spec_key(&self, data: (), index: usize) -> Option<usize> {
        DataGenerator::key(self, &data, index)
    }

    fn spec_generate(&self, data: (), key: usize) -> usize {
        DataGenerator::generate(self, &data, &key)
    }

    fn update(&mut self, _: &()) -> GeneratorChanges<usize> {
        GeneratorChanges::Any
    }

    fn key(&self, _: &(), index: usize) -> Option<usize> {
        Some(index)
    }

    fn generate(&self, _: &(), key: &usize) -> usize {
        key * self.scale
    }
}

#[test]
fn generator_tokens_agree_with_keyed() {
    let mut g = Scaled { scale: 3 };
    let mut a: Option<Token<usize, usize>> = None;
    let mut b: Option<Token<usize, usize>> = None;
    let steps = [(4, false, 3), (4, false, 3), (4, true, 3), (4, true, 5), (7, false, 5), (7, true, 5)];
    for (index, update_item, scale) in steps {
        g.scale = scale;
        let ra = generator_update_token(&g, &(), index, update_item, &mut a);
        let rb = keyed_update_token(&g, &(), index, update_item, &mut b);
        assert_eq!(ra, rb);
        assert_eq!(a.as_ref().map(|t| (t.key, t.item)), b.as_ref().map(|t| (t.key, t.item)));
    }
    assert_eq!(a.as_ref().map(|t| (t.key, t.item)), Some((7, 35)));
}
