//! The network trainer: one composed pipeline, a chosen cost function, and
//! the mini-batch gradient-descent loop.
//!
//! `learn_batch` runs forward and backward once per sample against the
//! parameters as they stood at the start of the batch, collects every
//! sample's parameter gradients, and then applies them all with the single
//! scale factor `-learn_rate / batch_size`: the negation moves the
//! parameters downhill, and the division averages the batch.  An empty batch
//! is a no-op.

use vstd::prelude::*;

use crate::cost::{cost_deriv, cost_deriv_exec, cost_label_ok, CostKind, Label, LabelView};
use crate::fixed::{fx_div_int, fx_neg, spec_fx_div_int, spec_fx_neg};
use crate::layer::{
    applied_views, chain_bwd, chain_fds, chain_fwd, chain_ok, chain_out_dims, fd_views,
    grad_views, layer_applied, layer_grad_ok, layer_views, vdims_ok, Dims, ForwardData, GradView,
    Gradients, LayerChain, LayerView, ValView, Value,
};

verus! {

/// The parameter gradients one labelled sample induces: forward, then the
/// cost gradient at the prediction, then backward.
pub open spec fn sample_grads(
    ls: Seq<LayerView>,
    k: CostKind,
    v: ValView,
    e: LabelView,
) -> Seq<GradView> {
    let p = match chain_fwd(ls, v) {
        ValView::D1(s) => s,
        ValView::D2(_) => Seq::<int>::empty(),
    };
    let seed = ValView::D1(cost_deriv(k, p, e));
    chain_bwd(ls, seed, chain_fds(ls, v)).1
}

/// The per-sample gradients of a whole batch, all taken against the same
/// starting parameters.
pub open spec fn batch_grads(
    ls: Seq<LayerView>,
    k: CostKind,
    data: Seq<(Value, Label)>,
) -> Seq<Seq<GradView>> {
    Seq::new(data.len(), |j: int| sample_grads(ls, k, data[j].0@, data[j].1@))
}

/// Every collected gradient applied in order with one common multiplier.
pub open spec fn apply_batch(
    ls: Seq<LayerView>,
    gss: Seq<Seq<GradView>>,
    mult: int,
) -> Seq<LayerView>
    decreases gss.len(),
{
    if gss.len() == 0 {
        ls
    } else {
        apply_batch(applied_views(ls, gss[0], mult), gss.drop_first(), mult)
    }
}

/// A parameter update never changes a parameter's shape, so a gradient that
/// fits a stage fits the updated stage too.
proof fn lemma_layer_applied_grad_ok(l: LayerView, g0: GradView, mult: int, g: GradView)
    requires
        layer_grad_ok(l, g),
    ensures
        layer_grad_ok(layer_applied(l, g0, mult), g),
{
}

/// The views of a sequence of per-sample gradient collections.
pub open spec fn gradss_views(s: Seq<Vec<Gradients>>) -> Seq<Seq<GradView>> {
    Seq::new(s.len(), |j: int| grad_views(s[j]@))
}

/// A pipeline with a cost function and label type attached: the training
/// entry point.
pub struct Network {
    pub layer: LayerChain,
    pub cost: CostKind,
}

impl Network {
    /// The pipeline is well formed and produces a vector (the prediction the
    /// cost functions consume).
    pub open spec fn wf(&self) -> bool {
        &&& self.layer.wf()
        &&& self.layer.output_dims is D1
    }

    /// The length of the prediction vector.
    pub open spec fn out_len(&self) -> nat {
        (self.layer.output_dims)->D1_0 as nat
    }

    /// Wrap a pipeline with a cost function.
    pub fn new(layer: LayerChain, cost: CostKind) -> (r: Self)
        ensures
            r.layer == layer,
            r.cost == cost,
    {
        Network { layer, cost }
    }

    /// Give the pipeline back.
    pub fn into_layer(self) -> (r: LayerChain)
        ensures
            r == self.layer,
    {
        self.layer
    }

    /// Forward evaluation of the pipeline: the prediction and the retained
    /// forward states.
    pub fn forward(&self, input: Value) -> (r: (Value, Vec<ForwardData>))
        requires
            self.wf(),
            vdims_ok(input@, self.layer.input_dims),
        ensures
            r.0@ == chain_fwd(layer_views(self.layer.layers@), input@),
            vdims_ok(r.0@, self.layer.output_dims),
            fd_views(r.1@) == chain_fds(layer_views(self.layer.layers@), input@),
    {
        self.layer.forward(input)
    }

    /// The parameter gradients of one labelled sample.
    fn get_gradients(&self, input: Value, expected: &Label) -> (r: Vec<Gradients>)
        requires
            self.wf(),
            vdims_ok(input@, self.layer.input_dims),
            cost_label_ok(self.cost, expected@, self.out_len()),
        ensures
            grad_views(r@) == sample_grads(
                layer_views(self.layer.layers@),
                self.cost,
                input@,
                expected@,
            ),
            r@.len() == self.layer.layers@.len(),
            forall|i: int|
                0 <= i < r@.len() ==> layer_grad_ok(
                    layer_views(self.layer.layers@)[i],
                    #[trigger] grad_views(r@)[i],
                ),
    {
        let ghost views = layer_views(self.layer.layers@);
        let ghost v0 = input@;
        let (out, fds) = self.layer.forward(input);
        let p = match out {
            Value::D1(p) => p,
            Value::D2(_) => vstd::pervasive::unreached(),
        };
        let seed = Value::D1(cost_deriv_exec(self.cost, &p, expected));
        proof {
            assert(vdims_ok(v0, self.layer.input_dims) && fd_views(fds@) == chain_fds(views, v0));
        }
        let (_, grads) = self.layer.backward(seed, fds);
        grads
    }

    /// One mini-batch gradient-descent step: collect every sample's
    /// gradients against the current parameters, then apply them all scaled
    /// by `-learn_rate / batch_size`.  An empty batch changes nothing.
    pub fn learn_batch(&mut self, data: Vec<(Value, Label)>, learn_rate: i64)
        requires
            old(self).wf(),
            data@.len() <= i64::MAX,
            forall|j: int|
                0 <= j < data@.len() ==> vdims_ok(
                    (#[trigger] data@[j]).0@,
                    old(self).layer.input_dims,
                ),
            forall|j: int|
                0 <= j < data@.len() ==> cost_label_ok(
                    old(self).cost,
                    (#[trigger] data@[j]).1@,
                    old(self).out_len(),
                ),
        ensures
            final(self).wf(),
            final(self).cost == old(self).cost,
            final(self).layer.input_dims == old(self).layer.input_dims,
            final(self).layer.output_dims == old(self).layer.output_dims,
            layer_views(final(self).layer.layers@) == apply_batch(
                layer_views(old(self).layer.layers@),
                batch_grads(layer_views(old(self).layer.layers@), old(self).cost, data@),
                spec_fx_neg(spec_fx_div_int(learn_rate as int, data@.len() as int)),
            ),
    {
        let ghost views0 = layer_views(self.layer.layers@);
        let ghost data0 = data@;
        let ghost gss = batch_grads(views0, self.cost, data0);
        let batch_size = data.len();
        if batch_size == 0 {
            proof {
                assert(apply_batch(
                    views0,
                    gss,
                    spec_fx_neg(spec_fx_div_int(learn_rate as int, data0.len() as int)),
                ) == views0);
            }
            return;
        }
        let multiplier = fx_neg(fx_div_int(learn_rate, batch_size as i64));
        let ghost mult = multiplier as int;
        let n_layers = self.layer.layers.len();

        let mut gradients: Vec<Vec<Gradients>> = Vec::new();
        let mut rest = data;
        let mut j: usize = 0;
        while j < batch_size
            invariant
                j <= batch_size,
                batch_size == data0.len(),
                self.layer == old(self).layer,
                self.cost == old(self).cost,
                self.wf(),
                views0 == layer_views(self.layer.layers@),
                n_layers == self.layer.layers@.len(),
                gss == batch_grads(views0, self.cost, data0),
                forall|jj: int|
                    0 <= jj < data0.len() ==> vdims_ok(
                        (#[trigger] data0[jj]).0@,
                        self.layer.input_dims,
                    ),
                forall|jj: int|
                    0 <= jj < data0.len() ==> cost_label_ok(
                        self.cost,
                        (#[trigger] data0[jj]).1@,
                        self.out_len(),
                    ),
                rest@ == data0.skip(j as int),
                gradients@.len() == j,
                gradss_views(gradients@) == gss.take(j as int),
                forall|jj: int, i: int|
                    0 <= jj < j && 0 <= i < n_layers ==> layer_grad_ok(
                        views0[i],
                        #[trigger] gradss_views(gradients@)[jj][i],
                    ),
                forall|jj: int|
                    0 <= jj < j ==> (#[trigger] gradients@[jj])@.len() == n_layers,
            decreases batch_size - j,
        {
            proof {
                assert(rest@[0] == data0[j as int]);
            }
            let (input, label) = rest.remove(0);
            let grads = self.get_gradients(input, &label);
            gradients.push(grads);
            proof {
                assert(rest@ =~= data0.skip(j + 1));
                assert(gradss_views(gradients@) =~= gss.take(j + 1));
            }
            j = j + 1;
        }
        proof {
            assert(gss.take(batch_size as int) =~= gss);
        }

        let ghost out_dims0 = self.layer.output_dims;
        let ghost in_dims0 = self.layer.input_dims;
        let mut k: usize = 0;
        while k < batch_size
            invariant
                k <= batch_size,
                batch_size == data0.len(),
                mult == multiplier as int,
                gradients@.len() == batch_size,
                gss == batch_grads(views0, old(self).cost, data0),
                gradss_views(gradients@) == gss,
                n_layers == views0.len(),
                self.cost == old(self).cost,
                self.layer.layers@.len() == n_layers,
                self.layer.input_dims == in_dims0,
                self.layer.output_dims == out_dims0,
                out_dims0 is D1,
                self.layer.wf(),
                layer_views(self.layer.layers@) == apply_batch(views0, gss.take(k as int), mult),
                forall|jj: int, i: int|
                    k <= jj < batch_size && 0 <= i < n_layers ==> layer_grad_ok(
                        layer_views(self.layer.layers@)[i],
                        #[trigger] gradss_views(gradients@)[jj][i],
                    ),
                forall|jj: int|
                    0 <= jj < batch_size ==> (#[trigger] gradients@[jj])@.len() == n_layers,
            decreases batch_size - k,
        {
            let ghost views_pre = layer_views(self.layer.layers@);
            proof {
                assert(grad_views(gradients@[k as int]@) == gss[k as int]);
            }
            let grads_k = vstd::std_specs::vec::vec_index(&gradients, k);
            self.layer.apply_gradients(grads_k, multiplier);
            proof {
                assert(grads_k@ == gradients@[k as int]@);
                assert(grad_views(grads_k@) == gss[k as int]);
                assert(layer_views(self.layer.layers@) == applied_views(
                    views_pre,
                    grad_views(grads_k@),
                    mult,
                ));
                assert(layer_views(self.layer.layers@) == applied_views(
                    views_pre,
                    gss[k as int],
                    mult,
                ));
                lemma_apply_batch_snoc(views0, gss, mult, k as int);
                assert(apply_batch(views0, gss.take(k + 1), mult) == applied_views(
                    views_pre,
                    gss[k as int],
                    mult,
                ));
                assert forall|jj: int, i: int|
                    k + 1 <= jj < batch_size && 0 <= i < n_layers implies layer_grad_ok(
                        layer_views(self.layer.layers@)[i],
                        #[trigger] gradss_views(gradients@)[jj][i],
                    ) by {
                    lemma_layer_applied_grad_ok(
                        views_pre[i],
                        gss[k as int][i],
                        mult,
                        gradss_views(gradients@)[jj][i],
                    );
                }
            }
            k = k + 1;
        }
        proof {
            assert(gss.take(batch_size as int) =~= gss);
        }
    }
}

/// Applying one more collected gradient extends the batch fold by one step.
proof fn lemma_apply_batch_snoc(ls: Seq<LayerView>, gss: Seq<Seq<GradView>>, mult: int, k: int)
    requires
        0 <= k < gss.len(),
    ensures
        apply_batch(ls, gss.take(k + 1), mult) == applied_views(
            apply_batch(ls, gss.take(k), mult),
            gss[k],
            mult,
        ),
    decreases k,
{
    if k == 0 {
        assert(gss.take(0) =~= Seq::<Seq<GradView>>::empty());
        assert(gss.take(1)[0] == gss[0]);
        assert(gss.take(1).drop_first() =~= Seq::<Seq<GradView>>::empty());
        assert(apply_batch(applied_views(ls, gss[0], mult), gss.take(1).drop_first(), mult)
            == applied_views(ls, gss[0], mult));
    } else {
        lemma_apply_batch_snoc(applied_views(ls, gss[0], mult), gss.skip(1), mult, k - 1);
        assert(gss.take(k + 1)[0] == gss[0]);
        assert(gss.take(k)[0] == gss[0]);
        assert(gss.take(k + 1).drop_first() =~= gss.skip(1).take(k));
        assert(gss.take(k).drop_first() =~= gss.skip(1).take(k - 1));
        assert(gss.skip(1)[k - 1] == gss[k]);
    }
}

} // verus!
