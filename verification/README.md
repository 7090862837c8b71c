# Bacchus GPU controller

GPU controller toolkit for Bacchus GPU servers. A `UserBootstrap` resource asks for everything that
one user needs on the cluster: a namespace, a quota, optionally a role, and a role binding.

* The admission webhook decides who may create, change and delete bootstraps, and fills in defaults.
* The controller creates the namespace of a bootstrap and what belongs in it.
* The synchronizer reads the request sheet and brings each listed user's quota in line.

## Layout

* `src/` is the library: the rules of all three processes, stated as contracts and proved with Verus.
  * `k8s`, `crd`: the objects that the rules read and write, as plain values.
  * `review`, `patch`, `admission`: admission reviews, JSON patches, and the decisions on them.
  * `cert`: when the webhook's certificate is loaded again.
  * `controller`: what is applied for a bootstrap, and in which order.
  * `synchronizer`: how the sheet is read and which patches follow from it.
  * `queue`, `collect`, `text`: work and results that stop at the first failure, and text helpers.
* `app/` is the program around it: servers, clients, files and signals. Its first argument is one of
  `admission`, `controller`, `crdgen` (which prints the resource definition) and `synchronizer`. The
  webhook's certificate is meant to come from [cert-manager](https://cert-manager.io/).
* `tests/` runs the library on concrete inputs.

The processes that decide and act in turn are state machines in the library: a step takes the state
and the last event, and gives the next state and the action that the program carries out.
